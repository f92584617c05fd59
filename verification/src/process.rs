//! Process-name resolution from what `/proc/<pid>/cmdline`, `/proc/<pid>/comm`
//! or `ps` report.
use vstd::prelude::*;

use crate::text::{chars_of, copy_range, find, find_from, split, split_chars, string_of, trim, trim_chars, views};

verus! {

/// A path component that `Path::components` drops: empty (repeated or
/// trailing `/`) or `.`.
pub open spec fn is_skipped_component(p: Seq<char>) -> bool {
    p.len() == 0 || p == seq!['.']
}

/// The last component of a `/`-separated path that is not skipped.
pub open spec fn last_component(ps: Seq<Seq<char>>) -> Option<Seq<char>>
    decreases ps.len(),
{
    if ps.len() == 0 {
        None
    } else if is_skipped_component(ps.last()) {
        last_component(ps.drop_last())
    } else {
        Some(ps.last())
    }
}

/// `Path::file_name` on a Unix path: its last normal component, or `None`
/// when the path ends in `..` or has no component (`/`, `.`, empty).
pub open spec fn file_name(path: Seq<char>) -> Option<Seq<char>> {
    match last_component(split(path, '/')) {
        Some(c) => if c == seq!['.', '.'] {
            None
        } else {
            Some(c)
        },
        None => None,
    }
}

/// Extracts the executable name (the last path component) from a path.
pub fn extract_process_name(path: &str) -> (r: Option<String>)
    ensures
        match r {
            Some(s) => file_name(path@) == Some(s@),
            None => file_name(path@) is None,
        },
{
    let cs = chars_of(path);
    let parts = split_chars(cs.as_slice(), '/');
    let ghost ps = views(parts@);
    let mut k = parts.len();
    assert(ps.take(k as int) =~= ps);
    while k > 0 && (parts[k - 1].len() == 0 || (parts[k - 1].len() == 1 && parts[k - 1][0] == '.'))
        invariant
            k <= parts@.len(),
            ps == views(parts@),
            ps == split(cs@, '/'),
            last_component(ps) == last_component(ps.take(k as int)),
        decreases k,
    {
        proof {
            let p = parts@[k - 1]@;
            assert(ps.take(k as int).last() == p);
            if p.len() == 1 {
                assert(p =~= seq!['.']);
            }
            assert(ps.take(k as int).drop_last() =~= ps.take(k - 1));
        }
        k = k - 1;
    }
    if k == 0 {
        assert(ps.take(0) =~= Seq::<Seq<char>>::empty());
        return None;
    }
    let last = &parts[k - 1];
    proof {
        let p = last@;
        assert(ps.take(k as int).last() == p);
        assert(!is_skipped_component(p)) by {
            if p.len() == 1 {
                assert(p[0] != '.');
                assert(p != seq!['.']);
            }
        }
    }
    if last.len() == 2 && last[0] == '.' && last[1] == '.' {
        assert(last@ =~= seq!['.', '.']);
        return None;
    }
    assert(last@ != seq!['.', '.']) by {
        if last@.len() == 2 {
            assert(last@[0] != '.' || last@[1] != '.');
        }
    }
    Some(string_of(last.as_slice()))
}

/// The first NUL-separated argument of a `/proc/<pid>/cmdline` text.
pub open spec fn first_arg(cmdline: Seq<char>) -> Seq<char> {
    let i = find(cmdline, '\0');
    if i < 0 {
        cmdline
    } else {
        cmdline.take(i)
    }
}

/// The name that `/proc/<pid>/cmdline` gives, when its first argument is a
/// non-empty path with a file name.
pub open spec fn name_from_cmdline(cmdline: Option<Seq<char>>) -> Option<Seq<char>> {
    match cmdline {
        Some(c) => if first_arg(c).len() > 0 {
            file_name(first_arg(c))
        } else {
            None
        },
        None => None,
    }
}

/// The process name for a PID, from the text of its `cmdline` and `comm`
/// files (each `None` when it could not be read): the executable name from the
/// command line, else the trimmed `comm`, else nothing.
pub open spec fn process_name_spec(cmdline: Option<Seq<char>>, comm: Option<Seq<char>>) -> Option<
    Seq<char>,
> {
    match name_from_cmdline(cmdline) {
        Some(n) => Some(n),
        None => match comm {
            Some(c) => Some(trim(c)),
            None => None,
        },
    }
}

/// Why no process name could be found.
#[derive(Debug, Clone, Copy, PartialEq, Eq, Structural)]
pub enum ProcessNameError {
    /// Neither the command line nor `comm` of the process could be read.
    NotFound,
}

/// Retrieves the process name from the contents of `/proc/<pid>/cmdline`
/// and `/proc/<pid>/comm` (`None` for a file that could not be read).
pub fn get_process_name(cmdline: Option<&str>, comm: Option<&str>) -> (r: Result<
    String,
    ProcessNameError,
>)
    ensures
        match r {
            Ok(s) => process_name_spec(
                match cmdline {
                    Some(c) => Some(c@),
                    None => None,
                },
                match comm {
                    Some(c) => Some(c@),
                    None => None,
                },
            ) == Some(s@),
            Err(_) => process_name_spec(
                match cmdline {
                    Some(c) => Some(c@),
                    None => None,
                },
                match comm {
                    Some(c) => Some(c@),
                    None => None,
                },
            ) is None,
        },
{
    if let Some(c) = cmdline {
        let cs = chars_of(c);
        let i = find_from(cs.as_slice(), 0, '\0');
        assert(cs@.skip(0) =~= cs@);
        if i > 0 {
            let exe = string_of(copy_range(cs.as_slice(), 0, i).as_slice());
            assert(exe@ =~= first_arg(c@)) by {
                if i == cs@.len() {
                    assert(cs@.subrange(0, i as int) =~= cs@);
                }
            }
            if let Some(name) = extract_process_name(exe.as_str()) {
                return Ok(name);
            }
        } else {
            assert(first_arg(c@).len() == 0);
        }
    }
    match comm {
        Some(c) => {
            let cs = chars_of(c);
            Ok(string_of(trim_chars(cs.as_slice()).as_slice()))
        },
        None => Err(ProcessNameError::NotFound),
    }
}

/// The name that `ps -o comm=` reports: its trimmed output's file name, or the
/// trimmed output itself when that has no file name.
pub fn name_from_ps_output(output: &str) -> (r: String)
    ensures
        r@ == match file_name(trim(output@)) {
            Some(n) => n,
            None => trim(output@),
        },
{
    let cs = chars_of(output);
    let t = string_of(trim_chars(cs.as_slice()).as_slice());
    match extract_process_name(t.as_str()) {
        Some(n) => n,
        None => t,
    }
}

} // verus!
