use vstd::prelude::*;
use crate::job::opt_view;
use crate::text::{find_last, is_digit, last_index_of, lemma_last_index_of};

verus! {

/// The url's last path segment: what follows its last `/`.
pub open spec fn file_name_of(url: Seq<char>) -> Option<Seq<char>> {
    let i = last_index_of(url, '/');
    if i < 0 {
        None
    } else {
        Some(url.subrange(i + 1, url.len() as int))
    }
}

/// What follows the last `.` of a file name, if it has one.
pub open spec fn extension_of(name: Seq<char>) -> Option<Seq<char>> {
    let j = last_index_of(name, '.');
    if j < 0 {
        None
    } else {
        Some(name.subrange(j + 1, name.len() as int))
    }
}

/// What precedes the last `.` of a file name; the whole name without one.
pub open spec fn base_of(name: Seq<char>) -> Seq<char> {
    let j = last_index_of(name, '.');
    if j < 0 {
        name
    } else {
        name.subrange(0, j)
    }
}

/// The name a new job gets: the url's last segment, or the custom base name
/// followed by that segment's extension. None where neither can be derived:
/// no `/`, an empty last segment, or a custom name for a segment with no
/// extension.
pub open spec fn job_name(url: Seq<char>, custom: Option<Seq<char>>) -> Option<Seq<char>> {
    match file_name_of(url) {
        None => None,
        Some(f) => if f.len() == 0 {
            None
        } else {
            match custom {
            None => Some(f),
            Some(c) => match extension_of(f) {
                None => None,
                Some(e) => Some(c + "."@ + e),
            },
        }
        },
    }
}

/// A file name with `_<stamp>` put after its base, before the extension.
pub open spec fn stamped(name: Seq<char>, stamp: Seq<char>) -> Seq<char> {
    match extension_of(name) {
        None => name + "_"@ + stamp,
        Some(e) => base_of(name) + "_"@ + stamp + "."@ + e,
    }
}

/// Substring by character positions, copied out.
fn slice_of(s: &str, from: usize, to: usize) -> (r: String)
    requires
        from <= to <= s@.len(),
    ensures
        r@ == s@.subrange(from as int, to as int),
{
    String::from_str(s.substring_char(from, to))
}

/// The last path segment of `url`.
pub fn file_name_of_url(url: &str) -> (r: Option<String>)
    ensures
        opt_view(r) == file_name_of(url@),
{
    proof {
        lemma_last_index_of(url@, '/');
    }
    let n = url.unicode_len();
    match find_last(url, '/') {
        None => None,
        Some(i) => Some(slice_of(url, i + 1, n)),
    }
}

/// The extension of a file name.
pub fn extension_of_name(name: &str) -> (r: Option<String>)
    ensures
        opt_view(r) == extension_of(name@),
{
    proof {
        lemma_last_index_of(name@, '.');
    }
    let n = name.unicode_len();
    match find_last(name, '.') {
        None => None,
        Some(j) => Some(slice_of(name, j + 1, n)),
    }
}

/// The name a job for `url` is given, see `job_name`.
pub fn job_name_for(url: &str, custom_name: &Option<String>) -> (r: Option<String>)
    ensures
        opt_view(r) == job_name(url@, opt_view(*custom_name)),
{
    let fname = file_name_of_url(url);
    match fname {
        None => None,
        Some(f) => if f.unicode_len() == 0 {
            None
        } else {
            match custom_name {
            None => Some(f),
            Some(c) => match extension_of_name(f.as_str()) {
                None => None,
                Some(e) => {
                    let mut n = c.clone();
                    n.append(".");
                    n.append(e.as_str());
                    Some(n)
                },
            },
        }
        },
    }
}

/// Puts `_<stamp>` into `name` after its base, before its extension.
pub fn stamped_name(name: &str, stamp: &str) -> (r: String)
    ensures
        r@ == stamped(name@, stamp@),
{
    proof {
        lemma_last_index_of(name@, '.');
    }
    let n = name.unicode_len();
    match find_last(name, '.') {
        None => {
            let mut r = String::from_str(name);
            r.append("_");
            r.append(stamp);
            r
        },
        Some(j) => {
            let mut r = slice_of(name, 0, j);
            r.append("_");
            r.append(stamp);
            r.append(".");
            let e = slice_of(name, j + 1, n);
            r.append(e.as_str());
            r
        },
    }
}

pub open spec fn is_ascii_letter(c: char) -> bool {
    (65 <= (c as u32) <= 90) || (97 <= (c as u32) <= 122)
}

/// The shape of a timestamp `YYYY_Mon_DD_HH_MM_SS`: twenty characters,
/// `_` at positions 4, 8, 11, 14 and 17, a three-letter month at 5 to 7,
/// digits everywhere else.
pub open spec fn stamp_shape(s: Seq<char>) -> bool {
    &&& s.len() == 20
    &&& forall|i: int|
        0 <= i < 20 ==> if i == 4 || i == 8 || i == 11 || i == 14 || i == 17 {
            #[trigger] s[i] == '_'
        } else if 5 <= i <= 7 {
            is_ascii_letter(s[i])
        } else {
            is_digit(s[i])
        }
}

/// Relies on chrono's `Utc::now` and `DateTime::format` with
/// `%Y_%b_%d_%H_%M_%S`: the current UTC time as a four-digit year, an
/// English month abbreviation, and two-digit day, hour, minute and second.
/// The year has four digits while the clock reads from 1970 (earlier
/// `Utc::now` panics) up to the year 9999. Which time it is, is not promised.
#[verifier::external_body]
fn timestamp_now() -> (r: String)
    ensures
        stamp_shape(r@),
{
    chrono::Utc::now().format("%Y_%b_%d_%H_%M_%S").to_string()
}

/// The name a payload is stored under: `name` itself where no file of that
/// name exists yet, otherwise `name` stamped with the current time.
pub fn resolve_name(name: &str, exists: bool) -> (r: String)
    ensures
        !exists ==> r@ == name@,
        exists ==> exists|stamp: Seq<char>| stamp_shape(stamp) && r@ == stamped(name@, stamp),
{
    if exists {
        let stamp = timestamp_now();
        stamped_name(name, stamp.as_str())
    } else {
        String::from_str(name)
    }
}

/// A stamped name is longer than the name it came from by the stamp and its
/// separator, so a name that collides is never stored under itself again.
pub proof fn lemma_stamped_differs(name: Seq<char>, stamp: Seq<char>)
    ensures
        stamped(name, stamp).len() == name.len() + 1 + stamp.len(),
        stamped(name, stamp) != name,
        stamped(name, stamp).subrange(0, base_of(name).len() + 1int) == base_of(name) + "_"@,
{
    reveal_strlit("_");
    reveal_strlit(".");
    lemma_last_index_of(name, '.');
    let s = stamped(name, stamp);
    let b = base_of(name);
    assert(s.subrange(0, b.len() + 1int) =~= b + "_"@);
}

} // verus!
