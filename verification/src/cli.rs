//! Helpers of the command-line surface: argument extraction and uptime
//! formatting. Argument parsing itself lives outside.

use vstd::prelude::*;
use crate::pow::{lemma_dec_bytes_ascii, spec_dec_bytes, u64_dec_bytes};
use vstd::string::StringExecFns;

verus! {

/// Relies on String::from_utf8: ASCII bytes decode to their own characters,
/// one per byte.
#[verifier::external_body]
fn ascii_string(v: Vec<u8>) -> (r: String)
    requires
        forall|i: int| 0 <= i < v@.len() ==> v@[i] < 128,
    ensures
        r@.len() == v@.len(),
        forall|i: int| 0 <= i < v@.len() ==> r@[i] == v@[i] as char,
{
    String::from_utf8(v).unwrap_or_default()
}

/// A byte sequence read as characters, one per byte.
pub open spec fn spec_ascii_chars(bs: Seq<u8>) -> Seq<char> {
    bs.map(|i: int, b: u8| b as char)
}

/// The uptime text: hours, minutes and seconds when there are hours;
/// minutes and seconds when there are minutes; bare seconds otherwise.
pub open spec fn spec_uptime_text(seconds: u64) -> Seq<char> {
    let h = seconds / 3600;
    let m = (seconds % 3600) / 60;
    let s = seconds % 60;
    if h > 0 {
        spec_ascii_chars(
            spec_dec_bytes(h as int) + seq![104u8, 32u8] + spec_dec_bytes(m as int)
                + seq![109u8, 32u8] + spec_dec_bytes(s as int) + seq![115u8],
        )
    } else if m > 0 {
        spec_ascii_chars(
            spec_dec_bytes(m as int) + seq![109u8, 32u8] + spec_dec_bytes(s as int) + seq![115u8],
        )
    } else {
        spec_ascii_chars(spec_dec_bytes(s as int) + seq![115u8])
    }
}

/// Write an uptime in seconds as `1h 2m 3s`, `2m 3s` or `3s`.
pub fn format_uptime(seconds: u64) -> (r: String)
    ensures
        r@ == spec_uptime_text(seconds),
{
    let hours = seconds / 3600;
    let minutes = (seconds % 3600) / 60;
    let secs = seconds % 60;
    let mut bytes: Vec<u8> = Vec::new();
    if hours > 0 {
        let mut h = u64_dec_bytes(hours);
        bytes.append(&mut h);
        bytes.push(104);
        bytes.push(32);
    }
    if hours > 0 || minutes > 0 {
        let mut m = u64_dec_bytes(minutes);
        bytes.append(&mut m);
        bytes.push(109);
        bytes.push(32);
    }
    let mut s = u64_dec_bytes(secs);
    bytes.append(&mut s);
    bytes.push(115);
    proof {
        lemma_dec_bytes_ascii(hours as int);
        lemma_dec_bytes_ascii(minutes as int);
        lemma_dec_bytes_ascii(secs as int);
        if hours > 0 {
            assert(bytes@ =~= spec_dec_bytes(hours as int) + seq![104u8, 32u8] + spec_dec_bytes(
                minutes as int,
            ) + seq![109u8, 32u8] + spec_dec_bytes(secs as int) + seq![115u8]);
        } else if minutes > 0 {
            assert(bytes@ =~= spec_dec_bytes(minutes as int) + seq![109u8, 32u8] + spec_dec_bytes(
                secs as int,
            ) + seq![115u8]);
        } else {
            assert(bytes@ =~= spec_dec_bytes(secs as int) + seq![115u8]);
        }
        assert(forall|i: int| 0 <= i < bytes@.len() ==> bytes@[i] < 128);
    }
    let ghost pre = bytes@;
    let out = ascii_string(bytes);
    proof {
        assert(out@ =~= spec_ascii_chars(pre));
    }
    out
}

/// The first index holding the flag.
pub open spec fn spec_flag_index(args: Seq<String>, flag: Seq<char>) -> int {
    choose|i: int|
        0 <= i < args.len() && args[i]@ == flag && (forall|j: int|
            0 <= j < i ==> args[j]@ != flag)
}

/// Some argument is the flag.
pub open spec fn spec_has_flag(args: Seq<String>, flag: Seq<char>) -> bool {
    exists|i: int| 0 <= i < args.len() && args[i]@ == flag
}

/// The value following the first occurrence of a flag in an argument list,
/// `None` when the flag is absent or stands last.
pub fn extract_arg(args: &Vec<String>, flag: &str) -> (r: Option<String>)
    ensures
        spec_has_flag(args@, flag@) && spec_flag_index(args@, flag@) + 1 < args@.len() ==> (r
            matches Some(v) && v@ == args@[spec_flag_index(args@, flag@) + 1]@),
        !(spec_has_flag(args@, flag@) && spec_flag_index(args@, flag@) + 1 < args@.len())
            ==> r is None,
{
    let needle = String::from_str(flag);
    let mut i: usize = 0;
    while i < args.len()
        invariant
            needle@ == flag@,
            i <= args@.len(),
            forall|j: int| 0 <= j < i ==> args@[j]@ != flag@,
        decreases args@.len() - i,
    {
        if args[i] == needle {
            proof {
                assert(spec_has_flag(args@, flag@)) by {
                    assert(args@[i as int]@ == flag@);
                }
                let k = spec_flag_index(args@, flag@);
                assert(0 <= k < args@.len() && args@[k]@ == flag@ && (forall|j: int|
                    0 <= j < k ==> args@[j]@ != flag@));
                if k < i {
                    assert(args@[k]@ != flag@);
                }
                if i < k {
                    assert(args@[i as int]@ != flag@);
                }
                assert(k == i as int);
            }
            if i + 1 < args.len() {
                return Some(args[i + 1].clone());
            } else {
                return None;
            }
        }
        i += 1;
    }
    None
}

} // verus!
