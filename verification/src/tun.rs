//! Names of TUN network interfaces, as the kernel's interface request expects them.

use vstd::prelude::*;
use vstd::string::StringSliceAdditionalSpecFns;

use crate::error::Error;

verus! {

/// The size of an interface name in an interface request, NUL terminator included.
pub const IFNAMSIZ: usize = 16;

/// Whether Linux network device names may not contain the byte `b`: `/`, `:` and whitespace
/// (`\t` through `\r`, space, and non-breaking space).
pub open spec fn spec_bad_name_byte(b: u8) -> bool {
    b == 0x2f || b == 0x3a || (9 <= b <= 13) || b == 0x20 || b == 0xA0
}

/// The position of the first byte of `name` that device names may not contain, if any.
pub open spec fn spec_first_bad_byte(name: Seq<u8>) -> Option<int>
    decreases name.len(),
{
    if name.len() == 0 {
        None
    } else {
        match spec_first_bad_byte(name.drop_last()) {
            Some(i) => Some(i),
            None => if spec_bad_name_byte(name.last()) {
                Some(name.len() - 1)
            } else {
                None
            },
        }
    }
}

/// The interface name for the device name `name`: its bytes followed by NUL padding to
/// `IFNAMSIZ` bytes, or why `name` is not a valid device name. The bytes are checked in order,
/// and the last one must be left for the NUL terminator.
pub open spec fn spec_ifr_name(name: Seq<u8>) -> Result<Seq<u8>, Error> {
    if name == seq![0x2eu8] || name == seq![0x2eu8, 0x2eu8] {
        Err(Error::TunNameDots)
    } else if name.len() == 0 {
        Err(Error::TunNameEmpty)
    } else {
        let checked = if name.len() < 15 { name } else { name.take(15) };
        match spec_first_bad_byte(checked) {
            Some(i) => Err(Error::TunNameChar { byte: name[i] }),
            None => if name.len() >= 16 {
                Err(Error::TunNameTooLong)
            } else {
                Ok(name + Seq::new((16 - name.len()) as nat, |i: int| 0u8))
            },
        }
    }
}

/// Whether device names may not contain `b`.
fn is_bad_name_byte(b: u8) -> (r: bool)
    ensures
        r == spec_bad_name_byte(b),
{
    b == 0x2f || b == 0x3a || (9 <= b && b <= 13) || b == 0x20 || b == 0xA0
}

/// Converts a device name into an interface name. If `n` is the number of bytes in `name`, `n`
/// must be between 1 and `IFNAMSIZ - 1` inclusive, and the remaining `IFNAMSIZ - n` bytes will
/// be NUL. Fails if `name` is not a valid name for a Linux network device.
pub fn prepare_ifr_name(name: &str) -> (r: Result<[u8; 16], Error>)
    ensures
        match spec_ifr_name(name.spec_bytes()) {
            Ok(v) => r matches Ok(a) && a@ == v,
            Err(e) => r == Err::<[u8; 16], Error>(e),
        },
{
    let bytes = name.as_bytes();
    let n = bytes.len();
    if (n == 1 && bytes[0] == 0x2e) || (n == 2 && bytes[0] == 0x2e && bytes[1] == 0x2e) {
        proof {
            assert(bytes@ =~= seq![0x2eu8] || bytes@ =~= seq![0x2eu8, 0x2eu8]);
        }
        return Err(Error::TunNameDots);
    }
    proof {
        assert(bytes@ != seq![0x2eu8]);
        assert(bytes@ != seq![0x2eu8, 0x2eu8]);
    }
    if n == 0 {
        return Err(Error::TunNameEmpty);
    }
    let ghost checked = if n < 15 { bytes@ } else { bytes@.take(15) };
    let mut out = [0u8; 16];
    let mut i: usize = 0;
    while i < 15
        invariant
            bytes@ == name.spec_bytes(),
            bytes@ != seq![0x2eu8],
            bytes@ != seq![0x2eu8, 0x2eu8],
            n == bytes@.len(),
            n > 0,
            checked == (if n < 15 { bytes@ } else { bytes@.take(15) }),
            i <= 15,
            spec_first_bad_byte(checked.take(if i < n { i as int } else { n as int })) is None,
            out@.len() == 16,
            forall|k: int| 0 <= k < i && k < n ==> out@[k] == bytes@[k],
            forall|k: int| n <= k < 16 ==> out@[k] == 0,
            forall|k: int| i <= k < 16 ==> out@[k] == 0,
        decreases 15 - i,
    {
        if i < n {
            let b = bytes[i];
            proof {
                assert(checked.take(i + 1).drop_last() =~= checked.take(i as int));
                assert(checked.take(i + 1).last() == b);
            }
            if is_bad_name_byte(b) {
                proof {
                    assert(spec_first_bad_byte(checked) == Some(i as int)) by {
                        lemma_first_bad_prefix(checked, i as int + 1);
                    }
                }
                return Err(Error::TunNameChar { byte: b });
            }
            out[i] = b;
        }
        i = i + 1;
    }
    proof {
        let m = if n < 15 { n as int } else { 15 };
        assert(checked.take(m) =~= checked);
    }
    if n >= 16 {
        return Err(Error::TunNameTooLong);
    }
    proof {
        assert(out@ =~= bytes@ + Seq::new((16 - n) as nat, |i: int| 0u8));
    }
    Ok(out)
}

/// The first bad byte of a sequence is the first bad byte of any prefix that contains one.
proof fn lemma_first_bad_prefix(s: Seq<u8>, k: int)
    requires
        0 <= k <= s.len(),
        spec_first_bad_byte(s.take(k)) is Some,
    ensures
        spec_first_bad_byte(s) == spec_first_bad_byte(s.take(k)),
    decreases s.len() - k,
{
    if k < s.len() {
        assert(s.take(k + 1).drop_last() =~= s.take(k));
        lemma_first_bad_prefix(s, k + 1);
    } else {
        assert(s.take(k) =~= s);
    }
}

} // verus!
