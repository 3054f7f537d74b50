//! The closed catalog of source pixel encodings.
use vstd::prelude::*;

verus! {

/// A source pixel encoding: a bit depth per channel and a channel count.
#[allow(non_camel_case_types)]
#[derive(Clone, Copy, Debug, PartialEq, Eq, Structural)]
pub enum DataType {
    CV_8UC1,
    CV_8UC2,
    CV_8UC3,
    CV_8UC4,
    CV_16UC1,
    CV_16UC2,
    CV_16UC3,
    CV_16UC4,
    CV_32FC1,
    CV_32FC2,
    CV_32FC3,
    CV_32FC4,
    CV_64FC1,
    CV_64FC2,
    CV_64FC3,
    CV_64FC4,
}

/// Order of the colour channels of a 3- or 4-channel pixel.
#[derive(Clone, Copy, Debug, PartialEq, Eq, Structural)]
pub enum ChannelOrder {
    Rgb,
    Bgr,
}

/// The 8-bit-per-channel layouts that every source encoding is normalized into.
#[derive(Clone, Copy, Debug, PartialEq, Eq, Structural)]
pub enum ColorLayout {
    Gray8,
    GrayAlpha8,
    Rgb8,
    Rgba8,
}

impl DataType {
    pub open spec fn spec_channels(self) -> u8 {
        match self {
            DataType::CV_8UC1 | DataType::CV_16UC1 | DataType::CV_32FC1 | DataType::CV_64FC1 => 1,
            DataType::CV_8UC2 | DataType::CV_16UC2 | DataType::CV_32FC2 | DataType::CV_64FC2 => 2,
            DataType::CV_8UC3 | DataType::CV_16UC3 | DataType::CV_32FC3 | DataType::CV_64FC3 => 3,
            DataType::CV_8UC4 | DataType::CV_16UC4 | DataType::CV_32FC4 | DataType::CV_64FC4 => 4,
        }
    }

    pub open spec fn spec_bytes_per_color(self) -> u8 {
        match self {
            DataType::CV_8UC1 | DataType::CV_8UC2 | DataType::CV_8UC3 | DataType::CV_8UC4 => 1,
            DataType::CV_16UC1 | DataType::CV_16UC2 | DataType::CV_16UC3 | DataType::CV_16UC4 => 2,
            DataType::CV_32FC1 | DataType::CV_32FC2 | DataType::CV_32FC3 | DataType::CV_32FC4 => 4,
            DataType::CV_64FC1 | DataType::CV_64FC2 | DataType::CV_64FC3 | DataType::CV_64FC4 => 8,
        }
    }

    pub open spec fn spec_bytes_per_pixel(self) -> u8 {
        (self.spec_channels() * self.spec_bytes_per_color()) as u8
    }

    /// The canonical layout of the converted image: decided by the channel count alone.
    pub open spec fn spec_color_layout(self) -> ColorLayout {
        match self.spec_channels() {
            1 => ColorLayout::Gray8,
            2 => ColorLayout::GrayAlpha8,
            3 => ColorLayout::Rgb8,
            _ => ColorLayout::Rgba8,
        }
    }

    /// Number of channels of a pixel.
    pub fn channels(&self) -> (r: u8)
        ensures
            r == self.spec_channels(),
            1 <= r <= 4,
    {
        match self {
            DataType::CV_8UC1 | DataType::CV_16UC1 | DataType::CV_32FC1 | DataType::CV_64FC1 => 1,
            DataType::CV_8UC2 | DataType::CV_16UC2 | DataType::CV_32FC2 | DataType::CV_64FC2 => 2,
            DataType::CV_8UC3 | DataType::CV_16UC3 | DataType::CV_32FC3 | DataType::CV_64FC3 => 3,
            DataType::CV_8UC4 | DataType::CV_16UC4 | DataType::CV_32FC4 | DataType::CV_64FC4 => 4,
        }
    }

    /// Number of bytes of one channel sample.
    pub fn bytes_per_color(&self) -> (r: u8)
        ensures
            r == self.spec_bytes_per_color(),
            r == 1 || r == 2 || r == 4 || r == 8,
    {
        match self {
            DataType::CV_8UC1 | DataType::CV_8UC2 | DataType::CV_8UC3 | DataType::CV_8UC4 => 1,
            DataType::CV_16UC1 | DataType::CV_16UC2 | DataType::CV_16UC3 | DataType::CV_16UC4 => 2,
            DataType::CV_32FC1 | DataType::CV_32FC2 | DataType::CV_32FC3 | DataType::CV_32FC4 => 4,
            DataType::CV_64FC1 | DataType::CV_64FC2 | DataType::CV_64FC3 | DataType::CV_64FC4 => 8,
        }
    }

    /// Number of bytes of one pixel: channels times bytes per channel.
    pub fn bytes_per_pixel(&self) -> (r: u8)
        ensures
            r == self.spec_bytes_per_pixel(),
            r as int == self.spec_channels() as int * self.spec_bytes_per_color() as int,
            1 <= r <= 32,
    {
        self.channels() * self.bytes_per_color()
    }

    /// The encoding's full name, such as `CV_8UC3`.
    pub open spec fn spec_name(self) -> Seq<char> {
        match self {
            DataType::CV_8UC1 => "CV_8UC1"@,
            DataType::CV_8UC2 => "CV_8UC2"@,
            DataType::CV_8UC3 => "CV_8UC3"@,
            DataType::CV_8UC4 => "CV_8UC4"@,
            DataType::CV_16UC1 => "CV_16UC1"@,
            DataType::CV_16UC2 => "CV_16UC2"@,
            DataType::CV_16UC3 => "CV_16UC3"@,
            DataType::CV_16UC4 => "CV_16UC4"@,
            DataType::CV_32FC1 => "CV_32FC1"@,
            DataType::CV_32FC2 => "CV_32FC2"@,
            DataType::CV_32FC3 => "CV_32FC3"@,
            DataType::CV_32FC4 => "CV_32FC4"@,
            DataType::CV_64FC1 => "CV_64FC1"@,
            DataType::CV_64FC2 => "CV_64FC2"@,
            DataType::CV_64FC3 => "CV_64FC3"@,
            DataType::CV_64FC4 => "CV_64FC4"@,
        }
    }

    /// The encoding's name.
    pub fn name(&self) -> (r: &'static str)
        ensures
            r@ == self.spec_name(),
    {
        match self {
            DataType::CV_8UC1 => "CV_8UC1",
            DataType::CV_8UC2 => "CV_8UC2",
            DataType::CV_8UC3 => "CV_8UC3",
            DataType::CV_8UC4 => "CV_8UC4",
            DataType::CV_16UC1 => "CV_16UC1",
            DataType::CV_16UC2 => "CV_16UC2",
            DataType::CV_16UC3 => "CV_16UC3",
            DataType::CV_16UC4 => "CV_16UC4",
            DataType::CV_32FC1 => "CV_32FC1",
            DataType::CV_32FC2 => "CV_32FC2",
            DataType::CV_32FC3 => "CV_32FC3",
            DataType::CV_32FC4 => "CV_32FC4",
            DataType::CV_64FC1 => "CV_64FC1",
            DataType::CV_64FC2 => "CV_64FC2",
            DataType::CV_64FC3 => "CV_64FC3",
            DataType::CV_64FC4 => "CV_64FC4",
        }
    }

    /// The short alias of the name, without the `CV_` prefix: `8UC3` for `CV_8UC3`.
    pub open spec fn spec_alias(self) -> Seq<char> {
        match self {
            DataType::CV_8UC1 => "8UC1"@,
            DataType::CV_8UC2 => "8UC2"@,
            DataType::CV_8UC3 => "8UC3"@,
            DataType::CV_8UC4 => "8UC4"@,
            DataType::CV_16UC1 => "16UC1"@,
            DataType::CV_16UC2 => "16UC2"@,
            DataType::CV_16UC3 => "16UC3"@,
            DataType::CV_16UC4 => "16UC4"@,
            DataType::CV_32FC1 => "32FC1"@,
            DataType::CV_32FC2 => "32FC2"@,
            DataType::CV_32FC3 => "32FC3"@,
            DataType::CV_32FC4 => "32FC4"@,
            DataType::CV_64FC1 => "64FC1"@,
            DataType::CV_64FC2 => "64FC2"@,
            DataType::CV_64FC3 => "64FC3"@,
            DataType::CV_64FC4 => "64FC4"@,
        }
    }

    /// The short alias of the encoding's name.
    pub fn alias(&self) -> (r: &'static str)
        ensures
            r@ == self.spec_alias(),
    {
        match self {
            DataType::CV_8UC1 => "8UC1",
            DataType::CV_8UC2 => "8UC2",
            DataType::CV_8UC3 => "8UC3",
            DataType::CV_8UC4 => "8UC4",
            DataType::CV_16UC1 => "16UC1",
            DataType::CV_16UC2 => "16UC2",
            DataType::CV_16UC3 => "16UC3",
            DataType::CV_16UC4 => "16UC4",
            DataType::CV_32FC1 => "32FC1",
            DataType::CV_32FC2 => "32FC2",
            DataType::CV_32FC3 => "32FC3",
            DataType::CV_32FC4 => "32FC4",
            DataType::CV_64FC1 => "64FC1",
            DataType::CV_64FC2 => "64FC2",
            DataType::CV_64FC3 => "64FC3",
            DataType::CV_64FC4 => "64FC4",
        }
    }

    /// The encodings offered on the command line: the whole catalog, in catalog order.
    pub fn cli_variants() -> (r: Vec<DataType>)
        ensures
            r@ == seq![DataType::CV_8UC1, DataType::CV_8UC2, DataType::CV_8UC3, DataType::CV_8UC4, DataType::CV_16UC1, DataType::CV_16UC2, DataType::CV_16UC3, DataType::CV_16UC4, DataType::CV_32FC1, DataType::CV_32FC2, DataType::CV_32FC3, DataType::CV_32FC4, DataType::CV_64FC1, DataType::CV_64FC2, DataType::CV_64FC3, DataType::CV_64FC4],
    {
        let mut v: Vec<DataType> = Vec::new();
        v.push(DataType::CV_8UC1);
        v.push(DataType::CV_8UC2);
        v.push(DataType::CV_8UC3);
        v.push(DataType::CV_8UC4);
        v.push(DataType::CV_16UC1);
        v.push(DataType::CV_16UC2);
        v.push(DataType::CV_16UC3);
        v.push(DataType::CV_16UC4);
        v.push(DataType::CV_32FC1);
        v.push(DataType::CV_32FC2);
        v.push(DataType::CV_32FC3);
        v.push(DataType::CV_32FC4);
        v.push(DataType::CV_64FC1);
        v.push(DataType::CV_64FC2);
        v.push(DataType::CV_64FC3);
        v.push(DataType::CV_64FC4);
        assert(v@ =~= seq![DataType::CV_8UC1, DataType::CV_8UC2, DataType::CV_8UC3, DataType::CV_8UC4, DataType::CV_16UC1, DataType::CV_16UC2, DataType::CV_16UC3, DataType::CV_16UC4, DataType::CV_32FC1, DataType::CV_32FC2, DataType::CV_32FC3, DataType::CV_32FC4, DataType::CV_64FC1, DataType::CV_64FC2, DataType::CV_64FC3, DataType::CV_64FC4]);
        v
    }

    /// The canonical layout that this encoding is converted into.
    pub fn color_layout(&self) -> (r: ColorLayout)
        ensures
            r == self.spec_color_layout(),
    {
        match self.channels() {
            1 => ColorLayout::Gray8,
            2 => ColorLayout::GrayAlpha8,
            3 => ColorLayout::Rgb8,
            _ => ColorLayout::Rgba8,
        }
    }
}

impl ColorLayout {
    pub open spec fn spec_channel_count(self) -> u8 {
        match self {
            ColorLayout::Gray8 => 1,
            ColorLayout::GrayAlpha8 => 2,
            ColorLayout::Rgb8 => 3,
            ColorLayout::Rgba8 => 4,
        }
    }

    /// Number of 8-bit channels of a pixel in this layout.
    pub fn channel_count(&self) -> (r: u8)
        ensures
            r == self.spec_channel_count(),
    {
        match self {
            ColorLayout::Gray8 => 1,
            ColorLayout::GrayAlpha8 => 2,
            ColorLayout::Rgb8 => 3,
            ColorLayout::Rgba8 => 4,
        }
    }
}

/// Every encoding's pixel size is its channel count times its sample size,
/// and its canonical layout keeps its channel count.
pub proof fn lemma_catalog_consistent(t: DataType)
    ensures
        t.spec_bytes_per_pixel() as int == t.spec_channels() as int * t.spec_bytes_per_color() as int,
        t.spec_color_layout().spec_channel_count() == t.spec_channels(),
{
}

impl Default for DataType {
    fn default() -> (r: DataType)
        ensures
            r == DataType::CV_8UC3,
    {
        DataType::CV_8UC3
    }
}

impl Default for ChannelOrder {
    fn default() -> (r: ChannelOrder)
        ensures
            r == ChannelOrder::Rgb,
    {
        ChannelOrder::Rgb
    }
}

} // verus!
