//! Image handling rules: upload validation and public image addresses.
//!
//! Storage itself — the object-store client and the format conversion — is a
//! collaborator of this crate; the rules checked here are the upload size
//! limit and the accepted input formats, decided over the raw bytes.

use vstd::prelude::*;

use crate::errors::{Code, Status};

verus! {

/// The character of one decimal digit.
pub open spec fn spec_digit_char(d: nat) -> char {
    if d == 0 {
        '0'
    } else if d == 1 {
        '1'
    } else if d == 2 {
        '2'
    } else if d == 3 {
        '3'
    } else if d == 4 {
        '4'
    } else if d == 5 {
        '5'
    } else if d == 6 {
        '6'
    } else if d == 7 {
        '7'
    } else if d == 8 {
        '8'
    } else {
        '9'
    }
}

/// The decimal form of a number, most significant digit first.
pub open spec fn spec_decimal(n: nat) -> Seq<char>
    decreases n,
{
    if n < 10 {
        seq![spec_digit_char(n)]
    } else {
        spec_decimal(n / 10).push(spec_digit_char(n % 10))
    }
}

/// The decimal characters of a digit sequence read back to front.
pub open spec fn spec_chars_rev(s: Seq<usize>) -> Seq<char>
    decreases s.len(),
{
    if s.len() == 0 {
        Seq::empty()
    } else {
        seq![spec_digit_char(s.last() as nat)] + spec_chars_rev(s.drop_last())
    }
}

/// One decimal digit as a string slice.
fn digit_str(d: usize) -> (r: &'static str)
    requires
        d < 10,
    ensures
        r@ == seq![spec_digit_char(d as nat)],
{
    proof {
        reveal_strlit("0");
        reveal_strlit("1");
        reveal_strlit("2");
        reveal_strlit("3");
        reveal_strlit("4");
        reveal_strlit("5");
        reveal_strlit("6");
        reveal_strlit("7");
        reveal_strlit("8");
        reveal_strlit("9");
        assert("0"@ =~= seq!['0']);
        assert("1"@ =~= seq!['1']);
        assert("2"@ =~= seq!['2']);
        assert("3"@ =~= seq!['3']);
        assert("4"@ =~= seq!['4']);
        assert("5"@ =~= seq!['5']);
        assert("6"@ =~= seq!['6']);
        assert("7"@ =~= seq!['7']);
        assert("8"@ =~= seq!['8']);
        assert("9"@ =~= seq!['9']);
    }
    match d {
        0 => "0",
        1 => "1",
        2 => "2",
        3 => "3",
        4 => "4",
        5 => "5",
        6 => "6",
        7 => "7",
        8 => "8",
        _ => "9",
    }
}

/// Renders a number in decimal.
fn usize_decimal(n: usize) -> (r: String)
    ensures
        r@ == spec_decimal(n as nat),
{
    // the digits come out low to high; collect them, then emit them from the
    // most significant down
    let mut low_first: Vec<usize> = Vec::new();
    let mut m: usize = n;
    while m >= 10
        invariant
            forall|k: int| 0 <= k < low_first@.len() ==> (#[trigger] low_first@[k]) < 10,
            spec_decimal(n as nat) == spec_decimal(m as nat) + spec_chars_rev(low_first@),
        decreases m,
    {
        let d = m % 10;
        let ghost prev = low_first@;
        low_first.push(d);
        m = m / 10;
        proof {
            assert(low_first@.drop_last() =~= prev);
            assert(spec_chars_rev(low_first@) =~= seq![spec_digit_char(d as nat)]
                + spec_chars_rev(prev));
            assert(spec_decimal(n as nat) =~= spec_decimal(m as nat) + spec_chars_rev(
                low_first@,
            ));
        }
    }
    let mut out = String::from_str(digit_str(m));
    proof {
        assert(out@ =~= spec_decimal(m as nat));
        assert(low_first@.take(low_first@.len() as int) =~= low_first@);
    }
    let mut i: usize = low_first.len();
    while i > 0
        invariant
            i <= low_first@.len(),
            forall|k: int| 0 <= k < low_first@.len() ==> (#[trigger] low_first@[k]) < 10,
            out@ + spec_chars_rev(low_first@.take(i as int)) == spec_decimal(n as nat),
        decreases i,
    {
        let d = low_first[i - 1];
        let ghost before = out@;
        out.append(digit_str(d));
        i = i - 1;
        proof {
            assert(low_first@.take(i as int + 1).last() == d);
            assert(low_first@.take(i as int + 1).drop_last() =~= low_first@.take(i as int));
            assert(spec_chars_rev(low_first@.take(i as int + 1)) =~= seq![spec_digit_char(
                d as nat,
            )] + spec_chars_rev(low_first@.take(i as int)));
            assert(out@ + spec_chars_rev(low_first@.take(i as int)) =~= before + spec_chars_rev(
                low_first@.take(i as int + 1),
            ));
        }
    }
    proof {
        assert(low_first@.take(0) =~= Seq::<usize>::empty());
        assert(out@ =~= out@ + spec_chars_rev(low_first@.take(0)));
    }
    out
}

/// Whether the bytes start with the JPEG magic bytes.
pub open spec fn spec_is_jpeg(data: Seq<u8>) -> bool {
    data.len() > 2 && data[0] == 0xff && data[1] == 0xd8 && data[2] == 0xff
}

/// Whether the bytes start with the JPEG 2000 signature box, its terminating
/// zero byte included.
pub open spec fn spec_is_jpeg2000(data: Seq<u8>) -> bool {
    &&& data.len() > 12
    &&& data[0] == 0x00
    &&& data[1] == 0x00
    &&& data[2] == 0x00
    &&& data[3] == 0x0c
    &&& data[4] == 0x6a
    &&& data[5] == 0x50
    &&& data[6] == 0x20
    &&& data[7] == 0x20
    &&& data[8] == 0x0d
    &&& data[9] == 0x0a
    &&& data[10] == 0x87
    &&& data[11] == 0x0a
    &&& data[12] == 0x00
}

/// Whether the bytes start with the PNG magic bytes.
pub open spec fn spec_is_png(data: Seq<u8>) -> bool {
    data.len() > 3 && data[0] == 0x89 && data[1] == 0x50 && data[2] == 0x4e && data[3] == 0x47
}

/// Whether the bytes carry the WebP container tag.
pub open spec fn spec_is_webp(data: Seq<u8>) -> bool {
    data.len() > 11 && data[8] == 0x57 && data[9] == 0x45 && data[10] == 0x42 && data[11] == 0x50
}

/// True exactly on the JPEG magic bytes.
fn is_jpeg(data: &[u8]) -> (r: bool)
    ensures
        r == spec_is_jpeg(data@),
{
    data.len() > 2 && data[0] == 0xff && data[1] == 0xd8 && data[2] == 0xff
}

/// True exactly on the JPEG 2000 signature box.
fn is_jpeg2000(data: &[u8]) -> (r: bool)
    ensures
        r == spec_is_jpeg2000(data@),
{
    data.len() > 12 && data[0] == 0x00 && data[1] == 0x00 && data[2] == 0x00 && data[3] == 0x0c
        && data[4] == 0x6a && data[5] == 0x50 && data[6] == 0x20 && data[7] == 0x20 && data[8]
        == 0x0d && data[9] == 0x0a && data[10] == 0x87 && data[11] == 0x0a && data[12] == 0x00
}

/// True exactly on the PNG magic bytes.
fn is_png(data: &[u8]) -> (r: bool)
    ensures
        r == spec_is_png(data@),
{
    data.len() > 3 && data[0] == 0x89 && data[1] == 0x50 && data[2] == 0x4e && data[3] == 0x47
}

/// True exactly on the WebP container tag.
fn is_webp(data: &[u8]) -> (r: bool)
    ensures
        r == spec_is_webp(data@),
{
    data.len() > 11 && data[8] == 0x57 && data[9] == 0x45 && data[10] == 0x42 && data[11] == 0x50
}

/// Whether the bytes carry one of the accepted image formats: JPEG,
/// JPEG 2000, PNG or WebP.
pub open spec fn spec_accepted_image(data: Seq<u8>) -> bool {
    ||| spec_is_jpeg(data)
    ||| spec_is_jpeg2000(data)
    ||| spec_is_png(data)
    ||| spec_is_webp(data)
}

/// The rules of the image collaborator: the public base address images are
/// served from and the largest upload accepted.
#[derive(Clone, Debug)]
pub struct ImageService {
    pub base_url: String,
    pub max_size: usize,
}

impl ImageService {
    /// Builds the service around its base address and size limit.
    pub fn new(base_url: String, max_size: usize) -> (r: ImageService)
        ensures
            r.base_url == base_url,
            r.max_size == max_size,
    {
        ImageService { base_url, max_size }
    }

    /// The public address of a stored image: the base address, a slash, the
    /// storage key.
    pub fn get_image_url(&self, image_path: &str) -> (r: String)
        ensures
            r@ == self.base_url@ + seq!['/'] + image_path@,
    {
        let mut url = self.base_url.clone();
        url.append("/");
        url.append(image_path);
        proof {
            reveal_strlit("/");
            assert("/"@ =~= seq!['/']);
            assert(url@ =~= self.base_url@ + seq!['/'] + image_path@);
        }
        url
    }

    /// The public address of an optional stored image.
    pub fn get_opt_image_url(&self, image_path: Option<&str>) -> (r: Option<String>)
        ensures
            match image_path {
                Some(p) => r matches Some(u) && u@ == self.base_url@ + seq!['/'] + p@,
                None => r is None,
            },
    {
        match image_path {
            Some(p) => Some(self.get_image_url(p)),
            None => None,
        }
    }

    /// Validates an upload: oversized data is rejected as resource
    /// exhaustion, and anything but an accepted image format as an invalid
    /// argument.
    pub fn validate_image(&self, image_data: &[u8]) -> (r: Result<(), Status>)
        ensures
            match r {
                Ok(()) => image_data@.len() <= self.max_size && spec_accepted_image(image_data@),
                Err(st) => if image_data@.len() > self.max_size {
                    st.code == Code::ResourceExhausted && st.message@
                        == "image.size: max_size="@ + spec_decimal(self.max_size as nat)
                } else {
                    st.code == Code::InvalidArgument && !spec_accepted_image(image_data@)
                        && st.message@ == "image.type: allowed_types=jpg,png,webp"@
                },
            },
    {
        if image_data.len() > self.max_size {
            let mut message = String::from_str("image.size: max_size=");
            message.append(usize_decimal(self.max_size).as_str());
            return Err(Status { code: Code::ResourceExhausted, message });
        }
        if !(is_jpeg(image_data) || is_jpeg2000(image_data) || is_png(image_data)
            || is_webp(image_data)) {
            return Err(Status::invalid_argument("image.type: allowed_types=jpg,png,webp"));
        }
        Ok(())
    }
}

} // verus!
