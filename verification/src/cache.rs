//! The response cache: the name of the file that stands for an address, and
//! the steps by which one run fetches through the cache.

use crate::text::joined;
use vstd::prelude::*;
use vstd::string::{StrSliceExecFns, StringExecFns};

verus! {

/// `s` with each `from` replaced by `to`.
pub open spec fn replaced(s: Seq<char>, from: char, to: Seq<char>) -> Seq<char>
    decreases s.len(),
{
    if s.len() == 0 {
        Seq::empty()
    } else if s.last() == from {
        replaced(s.drop_last(), from, to) + to
    } else {
        replaced(s.drop_last(), from, to).push(s.last())
    }
}

/// `s` with each `from` replaced by `to`.
pub fn replace_char(s: &str, from: char, to: &str) -> (r: String)
    ensures
        r@ == replaced(s@, from, to@),
{
    let n = s.unicode_len();
    let mut r = String::new();
    let mut i: usize = 0;
    assert(s@.take(0) =~= Seq::<char>::empty());
    while i < n
        invariant
            i <= n,
            n == s@.len(),
            r@ == replaced(s@.take(i as int), from, to@),
        decreases n - i,
    {
        proof {
            assert(s@.take(i as int + 1).drop_last() =~= s@.take(i as int));
            assert(s@.take(i as int + 1).last() == s@[i as int]);
        }
        if s.get_char(i) == from {
            r.append(to);
        } else {
            let kept = s.substring_char(i, i + 1);
            assert(kept@ =~= seq![s@[i as int]]);
            r.append(kept);
            assert(r@ =~= replaced(s@.take(i as int), from, to@).push(s@[i as int]));
        }
        i += 1;
    }
    assert(s@.take(n as int) =~= s@);
    r
}

/// The name of the file that stands for the address `url`: each `/` becomes
/// `_`, and each `:` is left out.
pub open spec fn file_name(url: Seq<char>) -> Seq<char> {
    replaced(replaced(url, '/', seq!['_']), ':', Seq::empty())
}

/// The name of the file that stands for an address.
pub fn url_to_file(s: &str) -> (name: String)
    ensures
        name@ == file_name(s@),
{
    proof {
        reveal_strlit("_");
        reveal_strlit("");
        assert("_"@ =~= seq!['_']);
        assert(""@ =~= Seq::<char>::empty());
    }
    let underscored = replace_char(s, '/', "_");
    replace_char(underscored.as_str(), ':', "")
}

/// The path of the cache file of an address, below the directory `root`.
pub fn cache_path(root: &str, url: &str) -> (path: String)
    ensures
        path@ == root@ + file_name(url@),
{
    let name = url_to_file(url);
    joined(root, name.as_str())
}

/// A replacement that does not hold the character leaves none of it.
pub proof fn lemma_replaced_leaves_none(s: Seq<char>, from: char, to: Seq<char>)
    requires
        !to.contains(from),
    ensures
        !replaced(s, from, to).contains(from),
    decreases s.len(),
{
    if s.len() > 0 {
        lemma_replaced_leaves_none(s.drop_last(), from, to);
        let before = replaced(s.drop_last(), from, to);
        let all = replaced(s, from, to);
        assert forall|i: int| 0 <= i < all.len() implies all[i] != from by {
            if i < before.len() {
                assert(before.contains(all[i]));
            } else if s.last() == from {
                assert(to.contains(all[i]));
            }
        }
    }
}

/// A replacement brings in no character that neither the text nor the
/// replacement holds.
pub proof fn lemma_replaced_brings_none(s: Seq<char>, from: char, to: Seq<char>, c: char)
    requires
        !s.contains(c),
        !to.contains(c),
    ensures
        !replaced(s, from, to).contains(c),
    decreases s.len(),
{
    if s.len() > 0 {
        assert forall|i: int| 0 <= i < s.drop_last().len() implies s.drop_last()[i] != c by {
            assert(s.contains(s[i]));
        }
        lemma_replaced_brings_none(s.drop_last(), from, to, c);
        let before = replaced(s.drop_last(), from, to);
        let all = replaced(s, from, to);
        assert(s.contains(s.last()));
        assert forall|i: int| 0 <= i < all.len() implies all[i] != c by {
            if i < before.len() {
                assert(before.contains(all[i]));
            } else if s.last() == from {
                assert(to.contains(all[i]));
            }
        }
    }
}

/// The name of a cache file holds no `/` and no `:`: it names a file of the
/// cache directory itself.
pub proof fn lemma_file_name_is_flat(url: Seq<char>)
    ensures
        !file_name(url).contains('/'),
        !file_name(url).contains(':'),
{
    let underscored = replaced(url, '/', seq!['_']);
    assert(!seq!['_'].contains('/'));
    lemma_replaced_leaves_none(url, '/', seq!['_']);
    assert(!Seq::<char>::empty().contains('/'));
    lemma_replaced_brings_none(underscored, ':', Seq::empty(), '/');
    assert(!Seq::<char>::empty().contains(':'));
    lemma_replaced_leaves_none(underscored, ':', Seq::empty());
}

} // verus!
