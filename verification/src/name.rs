//! The rule that turns a crate name into a Debian package name.

use vstd::prelude::*;
use vstd::string::*;
use crate::text::{chars_of, has_prefix, has_suffix};

verus! {

/// A crate that wraps a system library: its name ends in `-sys` and has
/// something before that ending.
pub open spec fn is_system_pkg(name: Seq<char>) -> bool {
    name.len() > 4 && has_suffix(name, "-sys"@)
}

/// A crate of the compiler's own family: its name starts with `rustc` and
/// goes on after it.
pub open spec fn has_rustc_prefix(name: Seq<char>) -> bool {
    name.len() > 5 && has_prefix(name, "rustc"@)
}

/// The Debian package name of the crate `name`. The rules apply in this
/// order: `libc` has a name of its own; a wrapper of a system library drops
/// its `-sys` and stands between `lib` and `-rust`; a name that starts with
/// `rustc` stays as it is; every other name follows `rust-`.
pub open spec fn xform_spec(name: Seq<char>) -> Seq<char> {
    if name == "libc"@ {
        "libc-rust"@
    } else if is_system_pkg(name) {
        "lib"@ + name.subrange(0, name.len() - 4) + "-rust"@
    } else if has_rustc_prefix(name) {
        name
    } else {
        "rust-"@ + name
    }
}

/// The Debian package name of the crate `cargo_name`.
pub fn xform_pkg_name(cargo_name: &str) -> (deb_name: String)
    ensures
        deb_name@ == xform_spec(cargo_name@),
{
    proof {
        reveal_strlit("libc");
        reveal_strlit("-sys");
        reveal_strlit("rustc");
    }
    let chars = chars_of(cargo_name);
    let n = chars.len();
    let is_libc = n == 4 && chars[0] == 'l' && chars[1] == 'i' && chars[2] == 'b' && chars[3]
        == 'c';
    if is_libc {
        assert(cargo_name@ =~= "libc"@);
        return String::from_str("libc-rust");
    }
    let is_system = n > 4 && chars[n - 4] == '-' && chars[n - 3] == 's' && chars[n - 2] == 'y'
        && chars[n - 1] == 's';
    proof {
        if is_system {
            assert(cargo_name@.subrange(n - 4, n as int) =~= "-sys"@);
        } else if n > 4 {
            let tail = cargo_name@.subrange(n - 4, n as int);
            assert(tail[0] == chars@[n - 4] && tail[1] == chars@[n - 3] && tail[2] == chars@[n
                - 2] && tail[3] == chars@[n - 1]);
        }
    }
    if is_system {
        let mut deb_name = String::from_str("lib");
        deb_name.append(cargo_name.substring_char(0, n - 4));
        deb_name.append("-rust");
        return deb_name;
    }
    let is_rustc = n > 5 && chars[0] == 'r' && chars[1] == 'u' && chars[2] == 's' && chars[3]
        == 't' && chars[4] == 'c';
    proof {
        if is_rustc {
            assert(cargo_name@.subrange(0, 5) =~= "rustc"@);
        } else if n > 5 {
            let head = cargo_name@.subrange(0, 5);
            assert(head[0] == chars@[0] && head[1] == chars@[1] && head[2] == chars@[2]
                && head[3] == chars@[3] && head[4] == chars@[4]);
        }
    }
    if is_rustc {
        String::from_str(cargo_name)
    } else {
        let mut deb_name = String::from_str("rust-");
        deb_name.append(cargo_name);
        deb_name
    }
}

} // verus!
