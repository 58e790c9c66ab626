//! Partitioning stored files against a responsibility prefix.

use vstd::prelude::*;

use crate::addr::Prefix;
use crate::addr::addr_bit;
use crate::paths::StoreConfig;
use crate::paths::bit_char;
use crate::paths::dir_chars;
use crate::paths::path_chars;
use crate::paths::prefix_dir_chars;
use crate::paths::prefix_to_dirpath;

verus! {

/// Whether `s` begins with `p`.
pub open spec fn starts_with_chars(s: Seq<char>, p: Seq<char>) -> bool {
    p.len() <= s.len() && s.take(p.len() as int) == p
}

/// Whether the string `s` begins with the string `p`.
pub fn string_starts_with(s: &str, p: &str) -> (r: bool)
    ensures
        r == starts_with_chars(s@, p@),
{
    let slen = s.unicode_len();
    let plen = p.unicode_len();
    if plen > slen {
        return false;
    }
    let mut i: usize = 0;
    while i < plen
        invariant
            i <= plen,
            plen == p@.len(),
            plen <= slen,
            slen == s@.len(),
            forall|k: int| 0 <= k < i ==> s@[k] == p@[k],
        decreases plen - i,
    {
        if s.get_char(i) != p.get_char(i) {
            proof {
                assert(s@.take(plen as int)[i as int] != p@[i as int]);
            }
            return false;
        }
        i += 1;
    }
    proof {
        assert(s@.take(plen as int) =~= p@);
    }
    true
}

/// Of a set of file paths, those that do not begin with the given prefix
/// path, in their original order.
pub open spec fn outside_chars(files: Seq<Seq<char>>, prefix_path: Seq<char>) -> Seq<Seq<char>> {
    files.filter(|f: Seq<char>| !starts_with_chars(f, prefix_path))
}

/// Of the given stored file paths, those that fall outside the prefix's
/// directory chain: the candidates for pruning when the node is responsible
/// only for addresses under the prefix.
pub fn list_files_without_prefix(cfg: &StoreConfig, files: &Vec<String>, prefix: &Prefix) -> (r:
    Vec<String>)
    requires
        prefix.wf(),
    ensures
        r.deep_view() == outside_chars(files.deep_view(), prefix_dir_chars(*cfg, *prefix)),
{
    let prefix_path = prefix_to_dirpath(cfg, prefix);
    let mut r: Vec<String> = Vec::new();
    let n = files.len();
    let mut i: usize = 0;
    while i < n
        invariant
            i <= n,
            n == files.len(),
            prefix_path@ == prefix_dir_chars(*cfg, *prefix),
            r.deep_view() == outside_chars(files.deep_view().take(i as int), prefix_path@),
        decreases n - i,
    {
        let ghost fv: Seq<Seq<char>> = files.deep_view();
        let ghost pred = (|f: Seq<char>| !starts_with_chars(f, prefix_path@));
        let ghost r_old: Seq<Seq<char>> = r.deep_view();
        let keep = !string_starts_with(files[i].as_str(), prefix_path.as_str());
        if keep {
            r.push(files[i].clone());
            proof {
                assert(r.deep_view() =~= r_old.push(fv[i as int]));
            }
        }
        proof {
            reveal(Seq::filter);
            assert(fv.take(i + 1).drop_last() =~= fv.take(i as int));
            assert(fv.take(i + 1).last() == fv[i as int]);
            assert(pred(fv[i as int]) == keep);
            assert(r.deep_view() =~= outside_chars(fv.take(i + 1), prefix_path@));
        }
        i += 1;
    }
    proof {
        assert(files.deep_view().take(n as int) =~= files.deep_view());
    }
    r
}

/// No path returned by the prefix filter begins with the prefix path it was
/// filtered against.
pub proof fn lemma_outside_excludes_prefix(files: Seq<Seq<char>>, prefix_path: Seq<char>)
    ensures
        forall|i: int|
            0 <= i < outside_chars(files, prefix_path).len() ==> !starts_with_chars(
                #[trigger] outside_chars(files, prefix_path)[i],
                prefix_path,
            ),
{
    assert forall|i: int| 0 <= i < outside_chars(files, prefix_path).len() implies !starts_with_chars(
        outside_chars(files, prefix_path)[i],
        prefix_path,
    ) by {
        files.lemma_filter_pred(|f: Seq<char>| !starts_with_chars(f, prefix_path), i);
    }
}

/// Every file that does not lie under the prefix path is returned by the
/// filter; together with the exclusion law, the filter partitions the files
/// exactly.
pub proof fn lemma_outside_complete(files: Seq<Seq<char>>, prefix_path: Seq<char>, i: int)
    requires
        0 <= i < files.len(),
        !starts_with_chars(files[i], prefix_path),
    ensures
        outside_chars(files, prefix_path).contains(files[i]),
{
    files.lemma_filter_contains(|f: Seq<char>| !starts_with_chars(f, prefix_path), i);
}

/// The filter invents nothing: every returned path is one of the given
/// files.
pub proof fn lemma_outside_subset(files: Seq<Seq<char>>, prefix_path: Seq<char>, f: Seq<char>)
    requires
        outside_chars(files, prefix_path).contains(f),
    ensures
        files.contains(f),
{
    files.lemma_filter_contains_rev(|g: Seq<char>| !starts_with_chars(g, prefix_path), f);
}

/// A prefix of length zero selects the store root itself, below which every
/// chunk is stored: nothing falls outside it.
pub proof fn lemma_outside_empty_prefix(files: Seq<Seq<char>>, prefix_path: Seq<char>)
    requires
        forall|i: int| 0 <= i < files.len() ==> starts_with_chars(#[trigger] files[i], prefix_path),
    ensures
        outside_chars(files, prefix_path).len() == 0,
    decreases files.len(),
{
    reveal(Seq::filter);
    if files.len() > 0 {
        assert(forall|i: int|
            0 <= i < files.drop_last().len() ==> starts_with_chars(
                #[trigger] files.drop_last()[i],
                prefix_path,
            ));
        lemma_outside_empty_prefix(files.drop_last(), prefix_path);
        assert(starts_with_chars(files.last(), prefix_path));
    }
}

/// The directory chain of a zero-length prefix is the store root and its
/// separator, with which every storage path begins.
pub proof fn lemma_empty_prefix_dirpath(cfg: StoreConfig, prefix: Prefix)
    requires
        prefix.len_spec() == 0,
    ensures
        prefix_dir_chars(cfg, prefix) == cfg.root_spec() + seq!['/'],
{
    assert(dir_chars(prefix.bits_spec(), 0) =~= Seq::<char>::empty());
    assert(prefix_dir_chars(cfg, prefix) =~= cfg.root_spec() + seq!['/']);
}

/// A stored path lies under a prefix's directory chain exactly when its
/// address agrees with the prefix on each of the prefix's bits. At full
/// depth this means only a chunk whose leading bits all match the prefix is
/// excluded from the filter's result.
pub proof fn lemma_under_prefix_iff_bits_match(cfg: StoreConfig, addr: Seq<u8>, prefix: Prefix)
    requires
        addr.len() == 32,
        cfg.wf(),
        prefix.wf(),
        prefix.len_spec() <= cfg.depth_spec(),
    ensures
        starts_with_chars(path_chars(cfg, addr), prefix_dir_chars(cfg, prefix)) <==> (forall|
            i: int,
        |
            0 <= i < prefix.len_spec() ==> addr_bit(addr, i) == addr_bit(prefix.bits_spec(), i)),
{
    let rl = cfg.root_spec().len() as int;
    let k = prefix.len_spec();
    let d = cfg.depth_spec();
    let p = path_chars(cfg, addr);
    let pre = prefix_dir_chars(cfg, prefix);
    let pa = cfg.root_spec() + seq!['/'] + dir_chars(addr, k);
    let plen = rl + 1 + 2 * k;
    assert(dir_chars(prefix.bits_spec(), k).len() == 2 * k);
    assert(dir_chars(addr, k).len() == 2 * k);
    assert(pre.len() == plen);
    assert(p.take(plen) =~= pa);
    if starts_with_chars(p, pre) {
        assert forall|i: int| 0 <= i < k implies addr_bit(addr, i) == addr_bit(
            prefix.bits_spec(),
            i,
        ) by {
            assert(pa[rl + 1 + 2 * i] == bit_char(addr, i));
            assert(pre[rl + 1 + 2 * i] == bit_char(prefix.bits_spec(), i));
        }
    }
    if forall|i: int| 0 <= i < k ==> addr_bit(addr, i) == addr_bit(prefix.bits_spec(), i) {
        assert forall|idx: int| 0 <= idx < 2 * k implies dir_chars(addr, k)[idx] == dir_chars(
            prefix.bits_spec(),
            k,
        )[idx] by {
            if idx % 2 == 0 {
                assert(addr_bit(addr, idx / 2) == addr_bit(prefix.bits_spec(), idx / 2));
            }
        }
        assert(dir_chars(addr, k) =~= dir_chars(prefix.bits_spec(), k));
        assert(pa =~= pre);
        assert(p.take(pre.len() as int) == pa);
        assert(starts_with_chars(p, pre));
    }
}

/// Every storage path begins with the store root and a separator.
pub proof fn lemma_path_starts_with_root(cfg: StoreConfig, addr: Seq<u8>)
    ensures
        starts_with_chars(path_chars(cfg, addr), cfg.root_spec() + seq!['/']),
{
    let p = path_chars(cfg, addr);
    let pre = cfg.root_spec() + seq!['/'];
    assert(p.take(pre.len() as int) =~= pre);
}

} // verus!
