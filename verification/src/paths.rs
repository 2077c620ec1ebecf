//! Paths as texts.

use crate::text;
use crate::text::{cat2, cat3};
use vstd::prelude::*;

verus! {

/// The name at the end of a path: what stands behind its last slash, where trailing
/// slashes and dots do not count. A path that ends by going up has none.
pub open spec fn last_segment(path: Seq<char>) -> Option<Seq<char>> {
    match last_named(text::split(path, '/')) {
        Some(name) if name != ".."@ => Some(name),
        _ => None,
    }
}

/// The last of some segments that is not empty and not a dot.
pub open spec fn last_named(segments: Seq<Seq<char>>) -> Option<Seq<char>>
    decreases segments.len(),
{
    if segments.len() == 0 {
        None
    } else if segments.last().len() == 0 || segments.last() == "."@ {
        last_named(segments.drop_last())
    } else {
        Some(segments.last())
    }
}

/// Where the last dot of a text is.
pub open spec fn last_dot(s: Seq<char>) -> Option<int>
    decreases s.len(),
{
    if s.len() == 0 {
        None
    } else if s.last() == '.' {
        Some(s.len() - 1)
    } else {
        last_dot(s.drop_last())
    }
}

/// The extension of a file's name: what follows its last dot, unless the name
/// starts with that dot.
pub open spec fn extension_of(path: Seq<char>) -> Option<Seq<char>> {
    match last_segment(path) {
        None => None,
        Some(name) => match last_dot(name) {
            Some(i) if i > 0 => Some(name.skip(i + 1)),
            _ => None,
        },
    }
}

/// A name in a directory.
pub open spec fn joined_path(dir: Seq<char>, name: Seq<char>) -> Seq<char> {
    if dir.len() == 0 || dir.last() == '/' {
        dir + name
    } else {
        dir + "/"@ + name
    }
}

fn find_last_named(segments: &Vec<String>) -> (r: Option<String>)
    ensures
        r.deep_view() == last_named(segments.deep_view()),
{
    let ghost list = segments.deep_view();
    let mut n: usize = segments.len();
    proof {
        assert(list.take(n as int) =~= list);
    }
    while n > 0
        invariant
            n <= segments.len(),
            list == segments.deep_view(),
            last_named(list) == last_named(list.take(n as int)),
        decreases n,
    {
        let segment = segments[n - 1].as_str();
        proof {
            assert(list.take(n as int).last() == segments@[n - 1]@);
            assert(list.take(n as int).drop_last() =~= list.take(n - 1));
        }
        if !segment.is_empty() && !text::same(segment, ".") {
            return Some(segment.to_owned());
        }
        n -= 1;
    }
    None
}

fn find_last_dot(s: &str) -> (r: Option<usize>)
    ensures
        match r {
            Some(i) => last_dot(s@) == Some(i as int) && i < s@.len(),
            None => last_dot(s@) is None,
        },
{
    let chars = text::chars_of(s);
    let mut n: usize = chars.len();
    proof {
        assert(s@.take(n as int) =~= s@);
    }
    while n > 0
        invariant
            n <= chars.len(),
            chars@ == s@,
            last_dot(s@) == last_dot(s@.take(n as int)),
        decreases n,
    {
        proof {
            assert(s@.take(n as int).last() == s@[n - 1]);
            assert(s@.take(n as int).drop_last() =~= s@.take(n - 1));
        }
        if chars[n - 1] == '.' {
            return Some(n - 1);
        }
        n -= 1;
    }
    None
}

/// The name at the end of a path.
pub fn file_name(path: &str) -> (r: Option<String>)
    ensures
        r.deep_view() == last_segment(path@),
{
    let segments = text::split_on(path, '/');
    let name = match find_last_named(&segments) {
        Some(name) => name,
        None => {
            return None;
        },
    };
    if text::same(name.as_str(), "..") {
        None
    } else {
        Some(name)
    }
}

/// The extension of a file's name.
pub fn extension(path: &str) -> (r: Option<String>)
    ensures
        r.deep_view() == extension_of(path@),
{
    let name = match file_name(path) {
        Some(name) => name,
        None => {
            return None;
        },
    };
    match find_last_dot(name.as_str()) {
        Some(i) => {
            if i == 0 {
                return None;
            }
            let end = name.as_str().unicode_len();
            let part = name.as_str().substring_char(i + 1, end);
            proof {
                assert(name@.subrange(i + 1, name@.len() as int) =~= name@.skip(i + 1));
            }
            Some(part.to_owned())
        },
        None => None,
    }
}

/// A name in a directory. The name is not an absolute path.
pub fn join_path(dir: &str, name: &str) -> (r: String)
    ensures
        r@ == joined_path(dir@, name@),
{
    let n = dir.unicode_len();
    if n == 0 || dir.get_char(n - 1) == '/' {
        cat2(dir, name)
    } else {
        cat3(dir, "/", name)
    }
}

/// A name in a directory comes behind the directory, with one slash between them.
pub proof fn law_joined_paths(dir: Seq<char>, name: Seq<char>)
    ensures
        dir.len() == 0 ==> joined_path(dir, name) == name,
        joined_path(dir.push('/'), name) == dir.push('/') + name,
        dir.len() > 0 && dir.last() != '/' ==> joined_path(dir, name) == dir.push('/') + name,
{
    reveal_strlit("/");
    assert("/"@ =~= seq!['/']);
    assert(dir + "/"@ =~= dir.push('/'));
    assert(dir.len() == 0 ==> dir + name =~= name);
}

/// The name at the end of a path is found behind the last slash. A slash or a dot at the end
/// does not count, and going up leaves no name.
pub proof fn law_last_segments(dir: Seq<char>, name: Seq<char>)
    requires
        !name.contains('/'),
    ensures
        last_segment(dir.push('/') + name) == (if name.len() == 0 || name == "."@ {
            last_segment(dir)
        } else if name == ".."@ {
            None
        } else {
            Some(name)
        }),
{
    text::laws::law_last_part(dir, '/', name);
    let parts = text::split(dir, '/').push(name);
    assert(parts.drop_last() =~= text::split(dir, '/'));
    reveal_strlit(".");
    reveal_strlit("..");
}

/// An extension is what follows the last dot of a name that does not begin with it.
pub proof fn law_extensions(stem: Seq<char>, extension: Seq<char>)
    requires
        stem.len() > 0,
        !stem.contains('/'),
        !extension.contains('/'),
        !extension.contains('.'),
        stem.push('.') + extension != ".."@,
    ensures
        extension_of(stem.push('.') + extension) == Some(extension),
{
    let name = stem.push('.') + extension;
    assert(!name.contains('/')) by {
        assert forall|i: int| 0 <= i < name.len() implies name[i] != '/' by {
            if i < stem.len() {
                assert(stem.contains(stem[i]));
            } else if i > stem.len() {
                assert(extension.contains(extension[i - stem.len() - 1]));
            }
        }
    }
    reveal_strlit(".");
    assert(name.len() > 1);
    text::laws::law_one_part(name, '/');
    assert(seq![name].last() == name);
    lemma_last_dot(stem, extension);
    assert(name.skip(stem.len() as int + 1) =~= extension);
}

proof fn lemma_last_dot(stem: Seq<char>, extension: Seq<char>)
    requires
        !extension.contains('.'),
    ensures
        last_dot(stem.push('.') + extension) == Some(stem.len() as int),
    decreases extension.len(),
{
    let name = stem.push('.') + extension;
    if extension.len() == 0 {
        assert(name =~= stem.push('.'));
    } else {
        let rest = extension.drop_last();
        assert(extension.contains(extension[extension.len() - 1]));
        assert forall|i: int| 0 <= i < rest.len() implies rest[i] != '.' by {
            assert(extension.contains(extension[i]));
        }
        assert(name.drop_last() =~= stem.push('.') + rest);
        lemma_last_dot(stem, rest);
    }
}

} // verus!
