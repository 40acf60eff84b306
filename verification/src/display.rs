//! Choosing the Linux display backend and the library path for a re-run
//! of the program: the decisions, apart from reading the environment and
//! probing the libraries.
use vstd::prelude::*;
use crate::duck::strings_view;
use crate::text::{ends_with_str, join, join_strings, str_eq, to_owned_string};

verus! {

/// A flag variable that is set: `1`, `true`, `TRUE`, `yes` or `YES`.
pub open spec fn truthy(v: Option<Seq<char>>) -> bool {
    match v {
        Some(s) => s == "1"@ || s == "true"@ || s == "TRUE"@ || s == "yes"@ || s == "YES"@,
        None => false,
    }
}

/// Whether the value of a flag variable (unset, or not Unicode, as `None`)
/// switches the flag on.
pub fn is_truthy_flag(value: Option<&str>) -> (b: bool)
    ensures
        b == truthy(match value {
            Some(s) => Some(s@),
            None => None,
        }),
{
    match value {
        Some(s) => str_eq(s, "1") || str_eq(s, "true") || str_eq(s, "TRUE") || str_eq(s, "yes")
            || str_eq(s, "YES"),
        None => false,
    }
}

/// X11 is forced when the user asks for it or Wayland is not usable.
pub fn force_x11(flag_set: bool, wayland_usable: bool) -> (b: bool)
    ensures
        b == (flag_set || !wayland_usable),
{
    flag_set || !wayland_usable
}

/// A display server is advertised when either of its two variables is set
/// and not empty.
pub fn either_set(a: Option<&str>, b: Option<&str>) -> (r: bool)
    ensures
        r == ((a is Some && a->Some_0@.len() > 0) || (b is Some && b->Some_0@.len() > 0)),
{
    let x = match a {
        Some(s) => crate::text::chars_of(s).len() > 0,
        None => false,
    };
    let y = match b {
        Some(s) => crate::text::chars_of(s).len() > 0,
        None => false,
    };
    x || y
}

/// The library directories tried for a re-run, in order.
pub open spec fn candidate_dirs(home: Option<Seq<char>>) -> Seq<Seq<char>> {
    seq!["/run/current-system/sw/share/nix-ld/lib"@, "/run/opengl-driver/lib"@] + match home {
        Some(h) => seq![home_lib(h)],
        None => Seq::empty(),
    } + seq!["/usr/lib"@, "/usr/lib64"@, "/usr/lib/x86_64-linux-gnu"@]
}

/// `<home>/.nix-profile/lib`, joined as `PathBuf::join` does: a `/` is put
/// between unless the home path is empty or ends with one.
pub open spec fn home_lib(h: Seq<char>) -> Seq<char> {
    if h.len() == 0 || h.last() == '/' {
        h + ".nix-profile/lib"@
    } else {
        h + "/"@ + ".nix-profile/lib"@
    }
}

/// The library directories that may hold the display libraries.
pub fn candidate_lib_dirs(home: Option<&str>) -> (r: Vec<String>)
    ensures
        strings_view(r@) == candidate_dirs(match home {
            Some(h) => Some(h@),
            None => None,
        }),
{
    let mut v: Vec<String> = Vec::new();
    v.push(to_owned_string("/run/current-system/sw/share/nix-ld/lib"));
    v.push(to_owned_string("/run/opengl-driver/lib"));
    match home {
        Some(h) => {
            let mut p = to_owned_string(h);
            let empty = crate::text::chars_of(h).len() == 0;
            proof {
                reveal_strlit("/");
                assert("/"@ =~= seq!['/']);
            }
            if !(empty || ends_with_str(h, "/")) {
                p.append("/");
            }
            proof {
                if h@.len() > 0 {
                    assert(crate::text::ends_with(h@, "/"@) == (h@.last() == '/')) by {
                        assert(h@.subrange(h@.len() - 1, h@.len() as int).len() == 1);
                        if h@.last() == '/' {
                            assert(h@.subrange(h@.len() - 1, h@.len() as int) =~= "/"@);
                        } else {
                            assert(h@.subrange(h@.len() - 1, h@.len() as int)[0] == h@.last());
                        }
                    }
                }
            }
            p.append(".nix-profile/lib");
            assert(p@ == home_lib(h@));
            v.push(p);
        },
        None => {},
    }
    v.push(to_owned_string("/usr/lib"));
    v.push(to_owned_string("/usr/lib64"));
    v.push(to_owned_string("/usr/lib/x86_64-linux-gnu"));
    assert(strings_view(v@) =~= candidate_dirs(match home {
        Some(h) => Some(h@),
        None => None,
    }));
    v
}

/// The `LD_LIBRARY_PATH` of the re-run: the useful directories joined with
/// `:`, in front of a non-empty existing value.
pub open spec fn ld_path_text(useful: Seq<Seq<char>>, existing: Option<Seq<char>>) -> Seq<char> {
    let extra = join(useful, ":"@);
    match existing {
        Some(e) => if e.len() > 0 {
            extra + ":"@ + e
        } else {
            extra
        },
        None => extra,
    }
}

pub fn ld_library_path_value(useful: &Vec<String>, existing: Option<&str>) -> (r: String)
    ensures
        r@ == ld_path_text(strings_view(useful@), match existing {
            Some(e) => Some(e@),
            None => None,
        }),
{
    let mut extra = join_strings(useful, ":");
    match existing {
        Some(e) => {
            if crate::text::chars_of(e).len() > 0 {
                extra.append(":");
                extra.append(e);
            }
            extra
        },
        None => extra,
    }
}

} // verus!
