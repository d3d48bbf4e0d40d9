use vstd::prelude::*;

use crate::asset_loader::{
    discovered, forward_slashes, is_separator, normalize_pack, pack_path, resolve_in, LoaderView,
};

verus! {

/// When no pack other than the default one holds the asset, resolution is decided by the
/// default pack alone.
proof fn lemma_no_override_holds(
    base: Seq<char>,
    default_pack: Seq<char>,
    packs: Seq<Seq<char>>,
    asset: Seq<char>,
    files: Seq<Seq<char>>,
)
    requires
        forall|i: int|
            0 <= i < packs.len() && packs[i] != default_pack ==> !files.contains(
                pack_path(base, packs[i], asset),
            ),
    ensures
        resolve_in(base, default_pack, packs, asset, files) == resolve_in(
            base,
            default_pack,
            Seq::empty(),
            asset,
            files,
        ),
    decreases packs.len(),
{
    if packs.len() > 0 {
        let rest = packs.drop_last();
        assert(packs.last() == packs[packs.len() - 1]);
        assert forall|i: int|
            0 <= i < rest.len() && rest[i] != default_pack implies !files.contains(
                pack_path(base, rest[i], asset),
            ) by {
            assert(rest[i] == packs[i]);
        }
        lemma_no_override_holds(base, default_pack, rest, asset, files);
    }
}

/// An override pack that holds the asset serves it, when no override pack discovered after
/// it holds the asset too: whether the default pack holds it does not matter.
pub proof fn lemma_last_override_wins(
    view: LoaderView,
    asset: Seq<char>,
    files: Seq<Seq<char>>,
    k: int,
)
    requires
        0 <= k < view.packs.len(),
        view.packs[k] != view.default_pack,
        files.contains(pack_path(view.base, view.packs[k], asset)),
        forall|j: int|
            k < j < view.packs.len() && view.packs[j] != view.default_pack ==> !files.contains(
                pack_path(view.base, view.packs[j], asset),
            ),
    ensures
        view.resolve(asset, files) == Some(pack_path(view.base, view.packs[k], asset)),
    decreases view.packs.len(),
{
    let packs = view.packs;
    let last = packs.len() - 1;
    assert(packs.last() == packs[last]);
    if k < last {
        let rest = LoaderView { packs: packs.drop_last(), ..view };
        assert(rest.packs[k] == packs[k]);
        assert forall|j: int|
            k < j < rest.packs.len() && rest.packs[j] != view.default_pack implies !files.contains(
                pack_path(view.base, rest.packs[j], asset),
            ) by {
            assert(rest.packs[j] == packs[j]);
        }
        lemma_last_override_wins(rest, asset, files, k);
    }
}

/// The default pack serves an asset that it holds and that no override pack holds.
pub proof fn lemma_default_pack_hit(view: LoaderView, asset: Seq<char>, files: Seq<Seq<char>>)
    requires
        files.contains(pack_path(view.base, view.default_pack, asset)),
        forall|i: int|
            0 <= i < view.packs.len() && view.packs[i] != view.default_pack ==> !files.contains(
                pack_path(view.base, view.packs[i], asset),
            ),
    ensures
        view.resolve(asset, files) == Some(pack_path(view.base, view.default_pack, asset)),
{
    lemma_no_override_holds(view.base, view.default_pack, view.packs, asset, files);
}

/// An override pack that is the only pack holding the asset serves it.
pub proof fn lemma_single_override_wins(
    view: LoaderView,
    asset: Seq<char>,
    files: Seq<Seq<char>>,
    k: int,
)
    requires
        0 <= k < view.packs.len(),
        view.packs[k] != view.default_pack,
        files.contains(pack_path(view.base, view.packs[k], asset)),
        !files.contains(pack_path(view.base, view.default_pack, asset)),
        forall|j: int|
            0 <= j < view.packs.len() && view.packs[j] != view.default_pack && view.packs[j]
                != view.packs[k] ==> !files.contains(pack_path(view.base, view.packs[j], asset)),
    ensures
        view.resolve(asset, files) == Some(pack_path(view.base, view.packs[k], asset)),
{
    let last_k = choose_last_holder(view, asset, files, k);
    lemma_last_override_wins(view, asset, files, last_k);
}

/// The last position at or after `k` whose pack is the pack at `k`.
proof fn choose_last_holder(view: LoaderView, asset: Seq<char>, files: Seq<Seq<char>>, k: int) -> (r:
    int)
    requires
        0 <= k < view.packs.len(),
    ensures
        k <= r < view.packs.len(),
        view.packs[r] == view.packs[k],
        forall|j: int| r < j < view.packs.len() ==> view.packs[j] != view.packs[k],
    decreases view.packs.len() - k,
{
    if exists|j: int| k < j < view.packs.len() && view.packs[j] == view.packs[k] {
        let j = choose|j: int| k < j < view.packs.len() && view.packs[j] == view.packs[k];
        choose_last_holder(view, asset, files, j)
    } else {
        k
    }
}

/// An override pack that holds the asset beats the default pack that holds it too, when it is
/// the only override pack holding it.
pub proof fn lemma_override_beats_default(
    view: LoaderView,
    asset: Seq<char>,
    files: Seq<Seq<char>>,
    k: int,
)
    requires
        0 <= k < view.packs.len(),
        view.packs[k] != view.default_pack,
        files.contains(pack_path(view.base, view.packs[k], asset)),
        files.contains(pack_path(view.base, view.default_pack, asset)),
        forall|j: int|
            0 <= j < view.packs.len() && view.packs[j] != view.default_pack && view.packs[j]
                != view.packs[k] ==> !files.contains(pack_path(view.base, view.packs[j], asset)),
    ensures
        view.resolve(asset, files) == Some(pack_path(view.base, view.packs[k], asset)),
{
    let last_k = choose_last_holder(view, asset, files, k);
    lemma_last_override_wins(view, asset, files, last_k);
}

/// An asset that no probed path holds is not found.
pub proof fn lemma_total_miss(view: LoaderView, asset: Seq<char>, files: Seq<Seq<char>>)
    requires
        !files.contains(pack_path(view.base, view.default_pack, asset)),
        forall|i: int|
            0 <= i < view.packs.len() ==> !files.contains(
                pack_path(view.base, view.packs[i], asset),
            ),
    ensures
        view.resolve(asset, files) is None,
{
    lemma_no_override_holds(view.base, view.default_pack, view.packs, asset, files);
}

/// Once a discovery step has found packs, a second step keeps them, whatever the second
/// listing holds.
pub proof fn lemma_discovery_idempotent(
    base: Seq<char>,
    cached: Seq<Seq<char>>,
    first: Option<Seq<Seq<char>>>,
    second: Option<Seq<Seq<char>>>,
)
    requires
        discovered(base, cached, first).len() > 0,
    ensures
        discovered(base, discovered(base, cached, first), second) == discovered(
            base,
            cached,
            first,
        ),
{
}

/// A pack name that neither begins nor ends with a separator names the same pack when it is
/// written between two slashes, so the two resolve every asset alike.
pub proof fn lemma_pack_name_between_slashes(name: Seq<char>)
    requires
        name.len() > 0 ==> !is_separator(name[0]) && !is_separator(name.last()),
    ensures
        normalize_pack(seq!['/'] + name + seq!['/']) == normalize_pack(name),
        forall|base: Seq<char>, packs: Seq<Seq<char>>, asset: Seq<char>, files: Seq<Seq<char>>|
            resolve_in(base, normalize_pack(seq!['/'] + name + seq!['/']), packs, asset, files)
                == resolve_in(base, normalize_pack(name), packs, asset, files),
{
    let f = forward_slashes(name);
    let wrapped = seq!['/'] + name + seq!['/'];
    assert(forward_slashes(wrapped) =~= seq!['/'] + f + seq!['/']);
    assert((seq!['/'] + f + seq!['/']).drop_first() =~= f + seq!['/']);
    if f.len() > 0 {
        assert(f[0] != '/');
        assert(f.last() == f[f.len() - 1]);
        assert(f.last() != '/');
    }
    if f.len() > 0 && f[0] == '?' {
        if f.len() >= 2 {
            assert((f + seq!['/']).skip(2) =~= f.skip(2) + seq!['/']);
            assert((f.skip(2) + seq!['/']).drop_last() =~= f.skip(2));
            if f.skip(2).len() > 0 {
                assert(f.skip(2).last() == f.last());
            }
        } else {
            assert((f + seq!['/']).len() == 2);
            assert((f + seq!['/']).skip(2) =~= Seq::<char>::empty());
        }
    } else {
        assert((f + seq!['/']).drop_last() =~= f);
    }
}

} // verus!
