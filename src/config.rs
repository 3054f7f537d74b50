//! What to read and where from, and the filter of the process list.
use crate::address::{parse_address, parsed_address};
use crate::pixel_format::{ChannelOrder, DataType};
use vstd::prelude::*;
use vstd::string::*;

verus! {

/// Sets how to read an image and where from.
#[derive(Clone, Debug)]
pub struct Config {
    pub pid_label: String,
    pub pid: u32,
    pub address: String,
    pub width: u32,
    pub height: u32,
    pub data_type: DataType,
    pub channel_order: ChannelOrder,
}

impl Config {
    pub open spec fn spec_is_filled(&self) -> bool {
        &&& self.pid != 0
        &&& parsed_address(self.address@) is Some
        &&& self.width != 0
        &&& self.height != 0
    }

    /// Whether a process is chosen, the address is valid and both sizes are non-zero.
    pub fn is_filled(&self) -> (r: bool)
        ensures
            r == self.spec_is_filled(),
    {
        self.pid != 0 && parse_address(self.address.as_str()).is_ok() && self.width != 0
            && self.height != 0
    }
}

impl Default for Config {
    /// No process, an empty address, zero sizes, 3-channel 8-bit samples in RGB order.
    fn default() -> (r: Config)
        ensures
            r.pid_label@ == "☰ Not selected!"@,
            r.pid == 0,
            r.address@.len() == 0,
            r.width == 0,
            r.height == 0,
            r.data_type == DataType::CV_8UC3,
            r.channel_order == ChannelOrder::Rgb,
    {
        Config {
            pid_label: String::from_str("☰ Not selected!"),
            pid: 0,
            address: String::new(),
            width: 0,
            height: 0,
            data_type: DataType::CV_8UC3,
            channel_order: ChannelOrder::Rgb,
        }
    }
}

impl PartialEq for Config {
    fn eq(&self, o: &Config) -> (r: bool) {
        self.pid_label == o.pid_label && self.pid == o.pid && self.address == o.address
            && self.width == o.width && self.height == o.height && self.data_type == o.data_type
            && self.channel_order == o.channel_order
    }
}

impl vstd::std_specs::cmp::PartialEqSpecImpl for Config {
    open spec fn obeys_eq_spec() -> bool {
        true
    }

    open spec fn eq_spec(&self, o: &Config) -> bool {
        &&& self.pid_label@ == o.pid_label@
        &&& self.pid == o.pid
        &&& self.address@ == o.address@
        &&& self.width == o.width
        &&& self.height == o.height
        &&& self.data_type == o.data_type
        &&& self.channel_order == o.channel_order
    }
}

/// What `str::to_lowercase` makes of a string.
pub uninterp spec fn lower_of(s: Seq<char>) -> Seq<char>;

/// Relies on `str::to_lowercase`: the lower-case form depends on the characters alone.
#[verifier::external_body]
fn lowercase(s: &str) -> (r: String)
    ensures
        r@ == lower_of(s@),
{
    s.to_lowercase()
}

/// Whether `needle` occurs in `hay` as a contiguous run.
pub open spec fn occurs_in(needle: Seq<char>, hay: Seq<char>) -> bool {
    exists|i: int|
        0 <= i && i + needle.len() <= hay.len() && #[trigger] hay.subrange(i, i + needle.len())
            == needle
}

fn chars_of(s: &str) -> (r: Vec<char>)
    ensures
        r@ == s@,
{
    let n = s.unicode_len();
    let mut out: Vec<char> = Vec::with_capacity(n);
    let mut i: usize = 0;
    while i < n
        invariant
            n == s@.len(),
            i <= n,
            out@ == s@.subrange(0, i as int),
        decreases n - i,
    {
        out.push(s.get_char(i));
        i = i + 1;
        assert(out@ =~= s@.subrange(0, i as int));
    }
    assert(out@ =~= s@);
    out
}

fn occurs_at(needle: &Vec<char>, hay: &Vec<char>, at: usize) -> (r: bool)
    requires
        at + needle@.len() <= hay@.len(),
    ensures
        r == (hay@.subrange(at as int, at + needle@.len()) == needle@),
{
    let hay_len = hay.len();
    let mut k: usize = 0;
    while k < needle.len()
        invariant
            hay_len == hay@.len(),
            at + needle@.len() <= hay@.len(),
            k <= needle@.len(),
            forall|j: int| 0 <= j < k ==> hay@[at + j] == needle@[j],
        decreases needle@.len() - k,
    {
        if hay[at + k] != needle[k] {
            assert(hay@.subrange(at as int, at + needle@.len())[k as int] != needle@[k as int]);
            return false;
        }
        k = k + 1;
    }
    assert(hay@.subrange(at as int, at + needle@.len()) =~= needle@);
    true
}

fn occurs(needle: &str, hay: &str) -> (r: bool)
    ensures
        r == occurs_in(needle@, hay@),
{
    let n = chars_of(needle);
    let h = chars_of(hay);
    if n.len() == 0 {
        assert(hay@.subrange(0int, 0int + needle@.len()) =~= needle@);
        return true;
    }
    if n.len() > h.len() {
        return false;
    }
    let last = h.len() - n.len();
    let mut at: usize = 0;
    while at <= last
        invariant
            n@ == needle@,
            h@ == hay@,
            last == h@.len() - n@.len(),
            n@.len() > 0,
            last < usize::MAX,
            at <= last + 1,
            forall|i: int| 0 <= i < at ==> #[trigger] h@.subrange(i, i + n@.len()) != n@,
        decreases last + 1 - at,
    {
        if occurs_at(&n, &h, at) {
            return true;
        }
        at = at + 1;
    }
    false
}

/// Whether a process passes the filter, given the lower-case forms of its
/// name and of the filter: the filter is empty, occurs in the process id, or
/// its lower-case form occurs in the lower-case name.
pub fn process_matches_folded(pid: &str, pname_lower: &str, filter: &str, filter_lower: &str) -> (r: bool)
    ensures
        r == (filter@.len() == 0 || occurs_in(filter@, pid@) || occurs_in(filter_lower@, pname_lower@)),
{
    filter.is_empty() || occurs(filter, pid) || occurs(filter_lower, pname_lower)
}

/// Whether the process with id `pid` and name `pname` passes `filter`: an
/// empty filter passes everything; otherwise the filter must occur in the
/// id, or occur in the name regardless of case.
pub fn check_process_filter(pid: &str, pname: &str, filter: &str) -> (r: bool)
    ensures
        r == (filter@.len() == 0 || occurs_in(filter@, pid@) || occurs_in(
            lower_of(filter@),
            lower_of(pname@),
        )),
{
    let pname_lower = lowercase(pname);
    let filter_lower = lowercase(filter);
    process_matches_folded(pid, pname_lower.as_str(), filter, filter_lower.as_str())
}

} // verus!
