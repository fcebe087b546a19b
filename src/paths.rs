use vstd::prelude::*;

use crate::text::{pieces, split_on};

verus! {

/// `name` followed by `ext`, with one dot between them.
pub open spec fn with_extension(name: Seq<char>, ext: Seq<char>) -> Seq<char> {
    if name.len() > 0 && name.last() == '.' {
        name + ext
    } else {
        name + seq!['.'] + ext
    }
}

/// Appends `ext` to `filename`, inserting a dot unless the name already ends in one.
pub fn append_extension(filename: &str, ext: &str) -> (r: String)
    ensures
        r@ == with_extension(filename@, ext@),
{
    let mut f = String::from_str(filename);
    let n = filename.unicode_len();
    if n == 0 || filename.get_char(n - 1) != '.' {
        f.append(".");
    }
    f.append(ext);
    proof {
        reveal_strlit(".");
    }
    f
}

/// What follows the last dot of `s`, where `s` has a dot.
pub open spec fn file_extension(s: Seq<char>) -> Option<Seq<char>> {
    let p = split_on(s, '.');
    if p.len() > 1 {
        Some(p.last())
    } else {
        None
    }
}

/// The text after the last dot of `input`; none where it has no dot.
pub fn find_extension(input: &str) -> (r: Option<String>)
    ensures
        r matches Some(x) ==> file_extension(input@) == Some(x@),
        r is None ==> file_extension(input@) is None,
{
    let mut s = pieces(input, '.');
    if s.len() > 1 {
        s.pop()
    } else {
        None
    }
}

/// `s` up to its last dot, or all of `s` where it has no dot.
pub open spec fn stem(s: Seq<char>) -> Seq<char>
    decreases s.len(),
{
    if !s.contains('.') {
        s
    } else if s.last() == '.' {
        s.drop_last()
    } else {
        stem(s.drop_last())
    }
}

proof fn lemma_stem_at_last_dot(s: Seq<char>, k: int)
    requires
        0 <= k < s.len(),
        s[k] == '.',
        forall|j: int| k < j < s.len() ==> s[j] != '.',
    ensures
        stem(s) == s.take(k),
    decreases s.len(),
{
    assert(s.contains('.'));
    if k == s.len() - 1 {
        assert(s.drop_last() =~= s.take(k));
    } else {
        assert(s.drop_last()[k] == '.');
        lemma_stem_at_last_dot(s.drop_last(), k);
        assert(s.drop_last().take(k) =~= s.take(k));
    }
}

/// `filename` without its extension: the text before its last dot, or the
/// whole name where it has no dot.
pub fn trim_extension(filename: &str) -> (r: Option<String>)
    ensures
        r matches Some(x) && x@ == stem(filename@),
{
    let n = filename.unicode_len();
    let mut i: usize = n;
    while i > 0
        invariant
            i <= n,
            n == filename@.len(),
            forall|j: int| i <= j < n ==> filename@[j] != '.',
        decreases i,
    {
        if filename.get_char(i - 1) == '.' {
            proof {
                lemma_stem_at_last_dot(filename@, i - 1);
            }
            return Some(String::from_str(filename.substring_char(0, i - 1)));
        }
        i = i - 1;
    }
    assert(!filename@.contains('.'));
    Some(String::from_str(filename))
}

/// `name` inside the directory `dir`.
pub open spec fn path_join(dir: Seq<char>, name: Seq<char>) -> Seq<char> {
    if dir.len() == 0 {
        name
    } else if dir.last() == '/' {
        dir + name
    } else {
        dir + seq!['/'] + name
    }
}

/// The path of `name` inside the directory `dir`.
pub fn join_path(dir: &str, name: &str) -> (r: String)
    ensures
        r@ == path_join(dir@, name@),
{
    let n = dir.unicode_len();
    if n == 0 {
        return String::from_str(name);
    }
    let mut p = String::from_str(dir);
    if dir.get_char(n - 1) != '/' {
        p.append("/");
    }
    p.append(name);
    proof {
        reveal_strlit("/");
    }
    p
}

/// The directory under the podcast directory that caches each feed.
pub fn get_xml_dir(podcast_dir: &str) -> (r: String)
    ensures
        r@ == path_join(podcast_dir@, ".rss"@),
{
    join_path(podcast_dir, ".rss")
}

/// The state file under the podcast directory.
pub fn get_sub_file(podcast_dir: &str) -> (r: String)
    ensures
        r@ == path_join(podcast_dir@, ".subscriptions.json"@),
{
    join_path(podcast_dir, ".subscriptions.json")
}

/// The rename that moves a state file of the oldest layout to where the state
/// file lives now, where one such file exists.
pub fn migrate(podcast_dir: &str, legacy_exists: bool) -> (r: Option<(String, String)>)
    ensures
        legacy_exists <==> r is Some,
        r matches Some((from, to)) ==> from@ == path_join(podcast_dir@, ".subscriptions"@) && to@
            == path_join(podcast_dir@, ".subscriptions.json"@),
{
    if legacy_exists {
        Some((join_path(podcast_dir, ".subscriptions"), get_sub_file(podcast_dir)))
    } else {
        None
    }
}

} // verus!
