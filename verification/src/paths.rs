//! Disk paths for stored profile images.

use vstd::prelude::*;
use crate::validate::{ascii_digit_char, ascii_letter};
use vstd::utf8::char_u32_cast;

verus! {

/// A character kept in an image file name: an ASCII letter or digit, a
/// dot, an underscore, a dash, or a slash. Every other character of the
/// name is dropped.
pub open spec fn path_char(c: char) -> bool {
    ||| ascii_letter(c)
    ||| ascii_digit_char(c)
    ||| c as u32 == 46
    ||| c as u32 == 95
    ||| c as u32 == 45
    ||| c as u32 == 47
}

/// The characters of `s` that a path keeps, in order.
pub open spec fn kept_chars(s: Seq<char>) -> Seq<char>
    decreases s.len(),
{
    if s.len() == 0 {
        Seq::empty()
    } else {
        kept_chars(s.drop_last()) + if path_char(s.last()) {
            seq![s.last()]
        } else {
            Seq::empty()
        }
    }
}

/// The characters that a run of ASCII bytes decodes to, one per byte.
pub open spec fn ascii_chars_of(v: Seq<u8>) -> Seq<char> {
    v.map_values(|b: u8| ((b as u32) as char))
}

/// Relies on alloc::string::String::from_utf8: bytes below 128 are valid
/// UTF-8 and decode one character per byte.
#[verifier::external_body]
fn ascii_bytes_to_string(v: Vec<u8>) -> (r: String)
    requires
        forall|i: int| 0 <= i < v@.len() ==> (#[trigger] v@[i]) < 128,
    ensures
        r@ == ascii_chars_of(v@),
{
    String::from_utf8(v).unwrap()
}

/// Returns the disk path of a profile image by file name. Only letters,
/// digits, dots, underscores, dashes and slashes of the name are kept;
/// the path lives under the images directory.
pub fn get_image_disk_path(file_name: &str) -> (r: String)
    ensures
        r@ == "./profile_images/"@ + kept_chars(file_name@),
{
    let mut bytes: Vec<u8> = Vec::new();
    bytes.push(46);
    bytes.push(47);
    bytes.push(112);
    bytes.push(114);
    bytes.push(111);
    bytes.push(102);
    bytes.push(105);
    bytes.push(108);
    bytes.push(101);
    bytes.push(95);
    bytes.push(105);
    bytes.push(109);
    bytes.push(97);
    bytes.push(103);
    bytes.push(101);
    bytes.push(115);
    bytes.push(47);
    proof {
        broadcast use char_u32_cast;

        reveal_strlit("./profile_images/");
        assert(ascii_chars_of(bytes@) =~= "./profile_images/"@);
    }
    let chars = crate::validate::str_chars(file_name);
    let mut i: usize = 0;
    while i < chars.len()
        invariant
            i <= chars@.len(),
            chars@ == file_name@,
            forall|k: int| 0 <= k < bytes@.len() ==> (#[trigger] bytes@[k]) < 128,
            ascii_chars_of(bytes@) == "./profile_images/"@ + kept_chars(
                file_name@.subrange(0, i as int),
            ),
        decreases chars@.len() - i,
    {
        let ghost pre_bytes = bytes@;
        let c = chars[i];
        let u = c as u32;
        let kept = (65 <= u && u <= 90) || (97 <= u && u <= 122) || (48 <= u && u <= 57) || u == 46
            || u == 95 || u == 45 || u == 47;
        if kept {
            let b: u8 = u as u8;
            proof {
                char_u32_cast(c, u);
                assert(b as u32 == u);
                assert(((b as u32) as char) == c);
            }
            bytes.push(b);
        }
        proof {
            let sub2 = file_name@.subrange(0, i + 1);
            assert(sub2.drop_last() =~= file_name@.subrange(0, i as int));
            assert(sub2.last() == file_name@[i as int]);
            assert(file_name@[i as int] == c);
            let target = "./profile_images/"@ + kept_chars(sub2);
            assert(ascii_chars_of(pre_bytes) == "./profile_images/"@ + kept_chars(
                file_name@.subrange(0, i as int),
            ));
            assert(ascii_chars_of(pre_bytes).len() == pre_bytes.len());
            assert(ascii_chars_of(bytes@).len() == bytes@.len());
            if kept {
                assert(path_char(c));
                assert(kept_chars(sub2) == kept_chars(sub2.drop_last()) + seq![c]);
                assert(ascii_chars_of(bytes@).len() == target.len());
                assert forall|k: int|
                    0 <= k < ascii_chars_of(bytes@).len() implies ascii_chars_of(bytes@)[k]
                    == target[k] by {
                    if k < pre_bytes.len() {
                        assert(bytes@[k] == pre_bytes[k]);
                        assert(ascii_chars_of(pre_bytes)[k] == ((pre_bytes[k] as u32) as char));
                    } else {
                        assert(ascii_chars_of(bytes@)[k] == ((bytes@[k] as u32) as char));
                        assert(target[k] == c);
                    }
                }
                assert(ascii_chars_of(bytes@) =~= target);
            } else {
                assert(!path_char(c));
                assert(kept_chars(sub2) =~= kept_chars(sub2.drop_last()));
                assert(ascii_chars_of(bytes@) =~= target);
            }
        }
        i += 1;
    }
    proof {
        assert(file_name@.subrange(0, file_name@.len() as int) =~= file_name@);
    }
    ascii_bytes_to_string(bytes)
}

} // verus!
