//! What to ask of the memory of another process, decided before asking.
use crate::address::{parse_address, parsed_address};
use crate::config::Config;
use crate::imageprocessing::{expected_len, ImageProcessingError};
use crate::pixel_format::DataType;
use vstd::prelude::*;

verus! {

/// A read of `length` bytes at `address` in process `pid`.
#[derive(Clone, Copy, Debug, PartialEq, Eq, Structural)]
pub struct ReadRequest {
    pub pid: u32,
    pub address: usize,
    pub length: usize,
}

impl ReadRequest {
    /// Whether the memory source has to be asked at all: an empty read is
    /// answered with an empty buffer.
    pub fn needs_read(&self) -> (r: bool)
        ensures
            r == (self.length > 0),
    {
        self.length > 0
    }
}

/// Byte length of a `width` by `height` image in encoding `data_type`, if it
/// fits a `usize`.
pub fn buffer_length(data_type: DataType, width: u32, height: u32) -> (r: Option<usize>)
    ensures
        r is None <==> expected_len(data_type, width, height) > usize::MAX,
        r matches Some(n) ==> n == expected_len(data_type, width, height),
{
    let bpp = data_type.bytes_per_pixel() as u64;
    proof {
        assert(width as u64 * height as u64 <= u64::MAX) by (nonlinear_arith)
            requires
                width <= u32::MAX,
                height <= u32::MAX,
        ;
    }
    let area: u64 = width as u64 * height as u64;
    if area > (usize::MAX as u64) / bpp {
        proof {
            assert(area * bpp > usize::MAX) by (nonlinear_arith)
                requires
                    area > (usize::MAX as u64) / bpp,
                    bpp >= 1,
            ;
        }
        None
    } else {
        proof {
            assert(area * bpp <= usize::MAX) by (nonlinear_arith)
                requires
                    area <= (usize::MAX as u64) / bpp,
                    bpp >= 1,
            ;
        }
        Some((area * bpp) as usize)
    }
}

/// Checks the address text and the size of the read before the memory
/// source is asked: a malformed address, then a length beyond `usize`, are refused.
pub fn plan_read(pid: u32, address: &str, width: u32, height: u32, data_type: DataType) -> (r:
    Result<ReadRequest, ImageProcessingError>)
    ensures
        parsed_address(address@) is None ==> (r matches Err(e) && e is MalformedAddress),
        parsed_address(address@) is Some && expected_len(data_type, width, height) > usize::MAX
            ==> (r matches Err(e) && e is PreconditionViolation),
        parsed_address(address@) is Some && expected_len(data_type, width, height) <= usize::MAX
            ==> r == Ok::<ReadRequest, ImageProcessingError>(
            ReadRequest {
                pid,
                address: parsed_address(address@)->0,
                length: expected_len(data_type, width, height) as usize,
            },
        ),
{
    let addr = match parse_address(address) {
        Ok(a) => a,
        Err(e) => {
            return Err(e);
        },
    };
    match buffer_length(data_type, width, height) {
        Some(length) => Ok(ReadRequest { pid, address: addr, length }),
        None => Err(ImageProcessingError::PreconditionViolation),
    }
}

impl Config {
    /// The read that this configuration asks for.
    pub fn read_request(&self) -> (r: Result<ReadRequest, ImageProcessingError>)
        ensures
            parsed_address(self.address@) is None ==> (r matches Err(e) && e is MalformedAddress),
            parsed_address(self.address@) is Some && expected_len(
                self.data_type,
                self.width,
                self.height,
            ) > usize::MAX ==> (r matches Err(e) && e is PreconditionViolation),
            parsed_address(self.address@) is Some && expected_len(
                self.data_type,
                self.width,
                self.height,
            ) <= usize::MAX ==> r == Ok::<ReadRequest, ImageProcessingError>(
                ReadRequest {
                    pid: self.pid,
                    address: parsed_address(self.address@)->0,
                    length: expected_len(self.data_type, self.width, self.height) as usize,
                },
            ),
    {
        plan_read(self.pid, self.address.as_str(), self.width, self.height, self.data_type)
    }
}

} // verus!
