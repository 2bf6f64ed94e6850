//! The champions that can be chosen.

use vstd::prelude::*;

use crate::number::{signed_decimal, signed_decimal_of};
use crate::text::{chars_of, same};
use crate::windows::process::{lemma_filter_push, texts};

verus! {

/// A champion as the League client lists it.
pub struct ChampionSummary {
    pub id: i64,
    pub name: String,
}

/// A champion as the League client lists it, as a mathematical value.
pub struct SummaryModel {
    pub id: i64,
    pub name: Seq<char>,
}

impl View for ChampionSummary {
    type V = SummaryModel;

    open spec fn view(&self) -> SummaryModel {
        SummaryModel { id: self.id, name: self.name@ }
    }
}

/// The list as mathematical values.
pub open spec fn summary_models(summaries: Seq<ChampionSummary>) -> Seq<SummaryModel> {
    summaries.map_values(|s: ChampionSummary| s@)
}

/// Whether an id is a champion's own and not that of a variant.
pub open spec fn is_primary(id: i64) -> bool {
    1 <= id && id < 10_000
}

/// Whether an id is a champion's own and not that of a variant.
pub fn primary(id: i64) -> (result: bool)
    ensures
        result == is_primary(id),
{
    1 <= id && id < 10_000
}

/// The ids of a list.
pub open spec fn ids_of(summaries: Seq<SummaryModel>) -> Seq<i64> {
    summaries.map_values(|s: SummaryModel| s.id)
}

/// The ids that are champions' own.
pub open spec fn primary_ids(ids: Seq<i64>) -> Seq<i64> {
    ids.filter(|id: i64| is_primary(id))
}

/// The ids that are champions' own, in their order.
pub fn retain_primary(ids: &Vec<i64>) -> (kept: Vec<i64>)
    ensures
        kept@ == primary_ids(ids@),
{
    let ghost keep = |id: i64| is_primary(id);
    let mut kept: Vec<i64> = Vec::new();
    let mut i: usize = 0;
    proof {
        reveal(Seq::filter);
        assert(kept@ == ids@.take(0).filter(keep));
    }
    while i < ids.len()
        invariant
            i <= ids@.len(),
            keep == |id: i64| is_primary(id),
            kept@ == ids@.take(i as int).filter(keep),
        decreases ids@.len() - i,
    {
        proof {
            lemma_filter_push(ids@.take(i as int), keep, ids@[i as int]);
            assert(ids@.take(i + 1) == ids@.take(i as int).push(ids@[i as int]));
        }
        if primary(ids[i]) {
            kept.push(ids[i]);
        }
        i = i + 1;
    }
    assert(ids@.take(i as int) == ids@);
    kept
}

/// Which champions can be banned where the League client does not say: all of them.
pub fn fallback_ban_candidates(summaries: &Vec<ChampionSummary>) -> (ids: Vec<i64>)
    ensures
        ids@ == primary_ids(ids_of(summary_models(summaries@))),
{
    let ghost all = ids_of(summary_models(summaries@));
    let mut ids: Vec<i64> = Vec::new();
    let mut i: usize = 0;
    while i < summaries.len()
        invariant
            i <= summaries@.len(),
            all == ids_of(summary_models(summaries@)),
            ids@ == all.take(i as int),
        decreases summaries@.len() - i,
    {
        assert(all[i as int] == summaries@[i as int].id);
        assert(all.take(i + 1) == all.take(i as int).push(all[i as int]));
        ids.push(summaries[i].id);
        i = i + 1;
    }
    assert(all.take(i as int) == all);
    retain_primary(&ids)
}

/// A champion as the remote page lists it.
#[derive(Debug, PartialEq, Eq)]
pub struct Champion {
    pub id: i64,
    pub name: String,
    pub positions: Vec<String>,
}

/// A champion as the remote page lists it, as a mathematical value.
pub struct ChampionModel {
    pub id: i64,
    pub name: Seq<char>,
    pub positions: Seq<Seq<char>>,
}

impl View for Champion {
    type V = ChampionModel;

    open spec fn view(&self) -> ChampionModel {
        ChampionModel { id: self.id, name: self.name@, positions: texts(self.positions@) }
    }
}

/// The champions as mathematical values.
pub open spec fn champion_models(champions: Seq<Champion>) -> Seq<ChampionModel> {
    champions.map_values(|c: Champion| c@)
}

/// The positions that are recommended for a champion, by the champion's id in digits.
pub struct RecommendedPositions {
    pub key: String,
    pub recommended_positions: Vec<String>,
}

/// The recommended positions, as a mathematical value.
pub struct PositionsModel {
    pub key: Seq<char>,
    pub recommended_positions: Seq<Seq<char>>,
}

impl View for RecommendedPositions {
    type V = PositionsModel;

    open spec fn view(&self) -> PositionsModel {
        PositionsModel {
            key: self.key@,
            recommended_positions: texts(self.recommended_positions@),
        }
    }
}

/// The recommended positions as mathematical values.
pub open spec fn positions_models(positions: Seq<RecommendedPositions>) -> Seq<PositionsModel> {
    positions.map_values(|p: RecommendedPositions| p@)
}

/// The positions that are recommended for `key`; none where it is not listed.
pub open spec fn positions_for(positions: Seq<PositionsModel>, key: Seq<char>) -> Seq<Seq<char>>
    decreases positions.len(),
{
    if positions.len() == 0 {
        Seq::empty()
    } else if positions[0].key == key {
        positions[0].recommended_positions
    } else {
        positions_for(positions.skip(1), key)
    }
}

/// Whether `a` comes before `b`, or both are the same: the order of their characters, the
/// shorter first where one begins with the other.
pub open spec fn not_after(a: Seq<char>, b: Seq<char>) -> bool
    decreases a.len(),
{
    if a.len() == 0 {
        true
    } else if b.len() == 0 {
        false
    } else if a[0] != b[0] {
        (a[0] as int) < (b[0] as int)
    } else {
        not_after(a.skip(1), b.skip(1))
    }
}

/// A list in order with one more champion, behind those of the same name.
pub open spec fn placed(sorted: Seq<ChampionModel>, champion: ChampionModel) -> Seq<ChampionModel>
    decreases sorted.len(),
{
    if sorted.len() == 0 || not_after(sorted.last().name, champion.name) {
        sorted.push(champion)
    } else {
        placed(sorted.drop_last(), champion).push(sorted.last())
    }
}

/// The champions in the order of their names; those of the same name stay in their order.
pub open spec fn by_name(champions: Seq<ChampionModel>) -> Seq<ChampionModel>
    decreases champions.len(),
{
    if champions.len() == 0 {
        Seq::empty()
    } else {
        placed(by_name(champions.drop_last()), champions.last())
    }
}

/// A champion with its recommended positions.
pub open spec fn entry_of(summary: SummaryModel, positions: Seq<PositionsModel>) -> ChampionModel {
    ChampionModel {
        id: summary.id,
        name: summary.name,
        positions: positions_for(positions, signed_decimal(summary.id as int)),
    }
}

/// The champions of a list that are no variants, with their recommended positions.
pub open spec fn entries_of(
    summaries: Seq<SummaryModel>,
    positions: Seq<PositionsModel>,
) -> Seq<ChampionModel> {
    summaries.filter(|s: SummaryModel| is_primary(s.id)).map_values(
        |s: SummaryModel| entry_of(s, positions),
    )
}

proof fn lemma_total(a: Seq<char>, b: Seq<char>)
    ensures
        not_after(a, b) || not_after(b, a),
    decreases a.len(),
{
    if a.len() > 0 && b.len() > 0 && a[0] == b[0] {
        lemma_total(a.skip(1), b.skip(1));
    }
}

proof fn lemma_transitive(a: Seq<char>, b: Seq<char>, c: Seq<char>)
    requires
        not_after(a, b),
        not_after(b, c),
    ensures
        not_after(a, c),
    decreases a.len(),
{
    if a.len() > 0 && b.len() > 0 && c.len() > 0 && a[0] == b[0] && b[0] == c[0] {
        lemma_transitive(a.skip(1), b.skip(1), c.skip(1));
    }
}

/// Two names of which neither comes after the other are the same.
pub proof fn name_order_is_antisymmetric(a: Seq<char>, b: Seq<char>)
    requires
        not_after(a, b),
        not_after(b, a),
    ensures
        a == b,
    decreases a.len(),
{
    if a.len() > 0 && b.len() > 0 && a[0] == b[0] {
        name_order_is_antisymmetric(a.skip(1), b.skip(1));
        assert(a =~= seq![a[0]] + a.skip(1));
        assert(b =~= seq![b[0]] + b.skip(1));
    } else {
        assert(a =~= b);
    }
}

/// Whether the names of a list never go backwards.
pub open spec fn in_order(champions: Seq<ChampionModel>) -> bool {
    forall|i: int, j: int|
        0 <= i < j < champions.len() ==> not_after(
            #[trigger] champions[i].name,
            #[trigger] champions[j].name,
        )
}

proof fn lemma_placed(sorted: Seq<ChampionModel>, champion: ChampionModel)
    requires
        in_order(sorted),
    ensures
        in_order(placed(sorted, champion)),
        placed(sorted, champion).to_multiset() == sorted.to_multiset().insert(champion),
        placed(sorted, champion).len() == sorted.len() + 1,
        forall|bound: Seq<char>|
            (forall|i: int| 0 <= i < sorted.len() ==> not_after(#[trigger] sorted[i].name, bound))
                && not_after(champion.name, bound) ==> forall|i: int|
                0 <= i < placed(sorted, champion).len() ==> #[trigger] not_after(
                    placed(sorted, champion)[i].name,
                    bound,
                ),
    decreases sorted.len(),
{
    broadcast use vstd::seq_lib::group_to_multiset_ensures;

    if sorted.len() == 0 {
    } else if not_after(sorted.last().name, champion.name) {
        let next = sorted.push(champion);
        assert forall|i: int, j: int| 0 <= i < j < next.len() implies not_after(
            #[trigger] next[i].name,
            #[trigger] next[j].name,
        ) by {
            if j == sorted.len() && i < sorted.len() - 1 {
                assert(not_after(sorted[i].name, sorted[sorted.len() - 1].name));
                lemma_transitive(sorted[i].name, sorted.last().name, champion.name);
            }
        }
    } else {
        let front = sorted.drop_last();
        let last = sorted.last();
        assert(in_order(front)) by {
            assert forall|i: int, j: int| 0 <= i < j < front.len() implies not_after(
                #[trigger] front[i].name,
                #[trigger] front[j].name,
            ) by {
                assert(not_after(sorted[i].name, sorted[j].name));
            }
        }
        lemma_placed(front, champion);
        lemma_total(last.name, champion.name);
        let inner = placed(front, champion);
        let next = inner.push(last);
        assert forall|i: int| 0 <= i < front.len() implies not_after(
            #[trigger] front[i].name,
            last.name,
        ) by {
            assert(not_after(sorted[i].name, sorted[sorted.len() - 1].name));
        }
        assert(forall|i: int| 0 <= i < inner.len() ==> #[trigger] not_after(inner[i].name, last.name));
        assert forall|i: int, j: int| 0 <= i < j < next.len() implies not_after(
            #[trigger] next[i].name,
            #[trigger] next[j].name,
        ) by {
            if j < inner.len() {
                assert(not_after(inner[i].name, inner[j].name));
            } else {
                assert(not_after(inner[i].name, last.name));
            }
        }
        assert(sorted =~= front.push(last));
        assert(next.to_multiset() =~= sorted.to_multiset().insert(champion));
        assert forall|bound: Seq<char>|
            (forall|i: int| 0 <= i < sorted.len() ==> not_after(#[trigger] sorted[i].name, bound))
                && not_after(champion.name, bound) implies forall|i: int|
            0 <= i < next.len() ==> #[trigger] not_after(next[i].name, bound) by {
            assert forall|i: int| 0 <= i < front.len() implies not_after(
                #[trigger] front[i].name,
                bound,
            ) by {
                assert(not_after(sorted[i].name, bound));
            }
            assert(not_after(sorted[sorted.len() - 1].name, bound));
            assert forall|i: int| 0 <= i < next.len() implies #[trigger] not_after(
                next[i].name,
                bound,
            ) by {
                if i < inner.len() {
                    assert(not_after(inner[i].name, bound));
                }
            }
        }
    }
}

/// The champions put in the order of their names are in order, and they are the same champions.
pub proof fn catalog_is_in_order(champions: Seq<ChampionModel>)
    ensures
        in_order(by_name(champions)),
        by_name(champions).to_multiset() == champions.to_multiset(),
    decreases champions.len(),
{
    broadcast use vstd::seq_lib::group_to_multiset_ensures;

    if champions.len() > 0 {
        let front = champions.drop_last();
        catalog_is_in_order(front);
        lemma_placed(by_name(front), champions.last());
        assert(champions =~= front.push(champions.last()));
    } else {
        assert(by_name(champions) =~= champions);
    }
}

/// Those of a list that have a name.
pub open spec fn with_name(champions: Seq<ChampionModel>, name: Seq<char>) -> Seq<ChampionModel> {
    champions.filter(|c: ChampionModel| c.name == name)
}

proof fn lemma_placed_stable(sorted: Seq<ChampionModel>, champion: ChampionModel, name: Seq<char>)
    requires
        in_order(sorted),
    ensures
        with_name(placed(sorted, champion), name) == with_name(sorted.push(champion), name),
    decreases sorted.len(),
{
    let keep = |c: ChampionModel| c.name == name;
    lemma_filter_push(sorted, keep, champion);
    if sorted.len() > 0 && !not_after(sorted.last().name, champion.name) {
        let front = sorted.drop_last();
        let last = sorted.last();
        assert(in_order(front)) by {
            assert forall|i: int, j: int| 0 <= i < j < front.len() implies not_after(
                #[trigger] front[i].name,
                #[trigger] front[j].name,
            ) by {
                assert(not_after(sorted[i].name, sorted[j].name));
            }
        }
        lemma_placed_stable(front, champion, name);
        lemma_filter_push(placed(front, champion), keep, last);
        lemma_filter_push(front, keep, champion);
        lemma_filter_push(front, keep, last);
        assert(sorted =~= front.push(last));
        lemma_same_name(champion.name);
    }
}

proof fn lemma_same_name(name: Seq<char>)
    ensures
        not_after(name, name),
    decreases name.len(),
{
    if name.len() > 0 {
        lemma_same_name(name.skip(1));
    }
}

/// Champions of the same name stay in the order in which they were listed.
pub proof fn catalog_is_stable(champions: Seq<ChampionModel>, name: Seq<char>)
    ensures
        with_name(by_name(champions), name) == with_name(champions, name),
    decreases champions.len(),
{
    let keep = |c: ChampionModel| c.name == name;
    if champions.len() > 0 {
        let front = champions.drop_last();
        catalog_is_stable(front, name);
        catalog_is_in_order(front);
        lemma_placed_stable(by_name(front), champions.last(), name);
        lemma_filter_push(by_name(front), keep, champions.last());
        lemma_filter_push(front, keep, champions.last());
        assert(champions =~= front.push(champions.last()));
    } else {
        assert(by_name(champions) =~= champions);
    }
}

fn name_not_after(a: &str, b: &str) -> (result: bool)
    ensures
        result == not_after(a@, b@),
{
    let first = chars_of(a);
    let second = chars_of(b);
    let mut i: usize = 0;
    assert(a@.skip(0) == a@ && b@.skip(0) == b@);
    while i < first.len()
        invariant
            first@ == a@,
            second@ == b@,
            i <= first@.len(),
            i <= second@.len(),
            not_after(a@, b@) == not_after(a@.skip(i as int), b@.skip(i as int)),
        decreases first@.len() - i,
    {
        if i >= second.len() {
            return false;
        }
        if first[i] != second[i] {
            return first[i] < second[i];
        }
        assert(a@.skip(i as int).skip(1) == a@.skip(i + 1));
        assert(b@.skip(i as int).skip(1) == b@.skip(i + 1));
        i = i + 1;
    }
    true
}

fn place(sorted: &mut Vec<Champion>, champion: Champion)
    ensures
        champion_models(final(sorted)@) == placed(champion_models(old(sorted)@), champion@),
{
    let ghost all = champion_models(sorted@);
    let mut at: usize = sorted.len();
    while at > 0 && !name_not_after(sorted[at - 1].name.as_str(), champion.name.as_str())
        invariant
            at <= sorted@.len(),
            all == champion_models(sorted@),
            forall|k: int| at <= k < all.len() ==> !not_after(#[trigger] all[k].name, champion.name@),
        decreases at,
    {
        at = at - 1;
        assert(all[at as int] == sorted@[at as int]@);
    }
    proof {
        if at > 0 {
            assert(all[at - 1] == sorted@[at - 1]@);
        }
        lemma_placed_at(all, champion@, at as int);
    }
    let ghost added = champion@;
    sorted.insert(at, champion);
    assert(champion_models(sorted@) =~= all.insert(at as int, added));
}

proof fn lemma_placed_at(sorted: Seq<ChampionModel>, champion: ChampionModel, at: int)
    requires
        0 <= at <= sorted.len(),
        forall|k: int|
            at <= k < sorted.len() ==> !not_after(#[trigger] sorted[k].name, champion.name),
        at > 0 ==> not_after(sorted[at - 1].name, champion.name),
    ensures
        placed(sorted, champion) == sorted.insert(at, champion),
    decreases sorted.len(),
{
    if at == sorted.len() {
        assert(sorted.push(champion) =~= sorted.insert(at, champion));
    } else {
        let front = sorted.drop_last();
        assert(!not_after(sorted[sorted.len() - 1].name, champion.name));
        assert forall|k: int| at <= k < front.len() implies !not_after(
            #[trigger] front[k].name,
            champion.name,
        ) by {
            assert(!not_after(sorted[k].name, champion.name));
        }
        lemma_placed_at(front, champion, at);
        assert(front.insert(at, champion).push(sorted.last()) =~= sorted.insert(at, champion));
    }
}

fn copy_texts(strings: &Vec<String>) -> (copy: Vec<String>)
    ensures
        texts(copy@) == texts(strings@),
{
    let mut copy: Vec<String> = Vec::new();
    let mut i: usize = 0;
    while i < strings.len()
        invariant
            i <= strings@.len(),
            copy@.len() == i,
            forall|k: int| 0 <= k < i ==> copy@[k]@ == #[trigger] strings@[k]@,
        decreases strings@.len() - i,
    {
        copy.push(strings[i].clone());
        i = i + 1;
    }
    assert(texts(copy@) =~= texts(strings@));
    copy
}

fn positions_of(positions: &Vec<RecommendedPositions>, key: &str) -> (found: Vec<String>)
    ensures
        texts(found@) == positions_for(positions_models(positions@), key@),
{
    let ghost all = positions_models(positions@);
    let mut i: usize = 0;
    assert(all.skip(0) == all);
    while i < positions.len()
        invariant
            i <= positions@.len(),
            all == positions_models(positions@),
            positions_for(all, key@) == positions_for(all.skip(i as int), key@),
        decreases positions@.len() - i,
    {
        assert(all.skip(i as int)[0] == positions@[i as int]@);
        if same(positions[i].key.as_str(), key) {
            return copy_texts(&positions[i].recommended_positions);
        }
        assert(all.skip(i as int).skip(1) == all.skip(i + 1));
        i = i + 1;
    }
    assert(all.skip(i as int).len() == 0);
    let none: Vec<String> = Vec::new();
    assert(texts(none@) =~= Seq::<Seq<char>>::empty());
    none
}

/// The champions of a list that are no variants, with their recommended positions, in the order
/// of their names.
pub fn catalog_entries(
    summaries: &Vec<ChampionSummary>,
    positions: &Vec<RecommendedPositions>,
) -> (champions: Vec<Champion>)
    ensures
        champion_models(champions@) == by_name(
            entries_of(summary_models(summaries@), positions_models(positions@)),
        ),
{
    let ghost all = summary_models(summaries@);
    let ghost known = positions_models(positions@);
    let ghost keep = |s: SummaryModel| is_primary(s.id);
    let ghost entry = |s: SummaryModel| entry_of(s, known);
    let mut champions: Vec<Champion> = Vec::new();
    let mut i: usize = 0;
    proof {
        reveal(Seq::filter);
        assert(champion_models(champions@) =~= by_name(entries_of(all.take(0), known)));
    }
    while i < summaries.len()
        invariant
            i <= summaries@.len(),
            all == summary_models(summaries@),
            known == positions_models(positions@),
            keep == |s: SummaryModel| is_primary(s.id),
            entry == |s: SummaryModel| entry_of(s, known),
            champion_models(champions@) == by_name(entries_of(all.take(i as int), known)),
        decreases summaries@.len() - i,
    {
        let summary = &summaries[i];
        assert(all[i as int] == summary@);
        proof {
            lemma_filter_push(all.take(i as int), keep, summary@);
            assert(all.take(i + 1) == all.take(i as int).push(summary@));
        }
        if primary(summary.id) {
            let champion = Champion {
                id: summary.id,
                name: summary.name.clone(),
                positions: positions_of(positions, signed_decimal_of(summary.id).as_str()),
            };
            proof {
                let before = all.take(i as int).filter(keep);
                assert(champion@ == entry(summary@));
                assert(entries_of(all.take(i + 1), known) =~= before.map_values(entry).push(
                    champion@,
                ));
                assert(entries_of(all.take(i + 1), known).drop_last() =~= entries_of(
                    all.take(i as int),
                    known,
                ));
            }
            place(&mut champions, champion);
        }
        i = i + 1;
    }
    assert(all.take(i as int) == all);
    champions
}

/// The names are in the order of their characters: the first two that differ decide, and a name
/// comes before the longer ones that begin with it.
pub proof fn first_difference_decides(a: Seq<char>, b: Seq<char>, k: int)
    requires
        0 <= k <= a.len(),
        k <= b.len(),
        a.take(k) == b.take(k),
    ensures
        k < a.len() && k < b.len() && (a[k] as int) < (b[k] as int) ==> not_after(a, b)
            && !not_after(b, a),
        k == a.len() < b.len() ==> not_after(a, b) && !not_after(b, a),
    decreases k,
{
    if k > 0 {
        assert forall|i: int| 0 <= i < k implies a[i] == b[i] by {
            assert(a[i] == a.take(k)[i]);
            assert(b[i] == b.take(k)[i]);
        }
        assert(a[0] == b[0]);
        assert(a.skip(1).take(k - 1) =~= b.skip(1).take(k - 1));
        first_difference_decides(a.skip(1), b.skip(1), k - 1);
    }
}

proof fn lemma_entry_from(
    summaries: Seq<SummaryModel>,
    positions: Seq<PositionsModel>,
    champion: ChampionModel,
)
    ensures
        entries_of(summaries, positions).contains(champion) <==> exists|n: int|
            0 <= n < summaries.len() && 1 <= (#[trigger] summaries[n]).id < 10_000 && entry_of(
                summaries[n],
                positions,
            ) == champion,
    decreases summaries.len(),
{
    let keep = |s: SummaryModel| is_primary(s.id);
    let entry = |s: SummaryModel| entry_of(s, positions);
    reveal(Seq::filter);
    if summaries.len() > 0 {
        let front = summaries.drop_last();
        let last = summaries.last();
        lemma_entry_from(front, positions, champion);
        lemma_filter_push(front, keep, last);
        assert(summaries == front.push(last));
        let before = entries_of(front, positions);
        let all = entries_of(summaries, positions);
        if keep(last) {
            assert(all =~= before.push(entry(last)));
            assert(all.contains(champion) <==> before.contains(champion) || entry(last)
                == champion) by {
                broadcast use vstd::seq_lib::group_seq_properties;

            }
        } else {
            assert(all =~= before);
        }
        assert forall|n: int| 0 <= n < front.len() implies front[n] == summaries[n] by {}
        if exists|n: int|
            0 <= n < front.len() && 1 <= (#[trigger] front[n]).id < 10_000 && entry_of(
                front[n],
                positions,
            ) == champion {
            let n = choose|n: int|
                0 <= n < front.len() && 1 <= (#[trigger] front[n]).id < 10_000 && entry_of(
                    front[n],
                    positions,
                ) == champion;
            assert(summaries[n] == front[n]);
        }
        if exists|n: int|
            0 <= n < summaries.len() && 1 <= (#[trigger] summaries[n]).id < 10_000 && entry_of(
                summaries[n],
                positions,
            ) == champion {
            let n = choose|n: int|
                0 <= n < summaries.len() && 1 <= (#[trigger] summaries[n]).id < 10_000 && entry_of(
                    summaries[n],
                    positions,
                ) == champion;
            if n < front.len() {
                assert(front[n] == summaries[n]);
            }
        }
    }
}

proof fn lemma_positions_for(positions: Seq<PositionsModel>, key: Seq<char>)
    ensures
        match positions_first(positions, key) {
            Some(k) => {
                &&& 0 <= k < positions.len()
                &&& positions[k].key == key
                &&& forall|j: int| 0 <= j < k ==> (#[trigger] positions[j]).key != key
                &&& positions_for(positions, key) == positions[k].recommended_positions
            },
            None => {
                &&& forall|j: int| 0 <= j < positions.len() ==> (#[trigger] positions[j]).key != key
                &&& positions_for(positions, key) == Seq::<Seq<char>>::empty()
            },
        },
    decreases positions.len(),
{
    if positions.len() > 0 && positions[0].key != key {
        let rest = positions.skip(1);
        lemma_positions_for(rest, key);
        assert forall|j: int| 0 < j < positions.len() implies positions[j] == rest[j - 1] by {}
    }
}

spec fn positions_first(positions: Seq<PositionsModel>, key: Seq<char>) -> Option<int>
    decreases positions.len(),
{
    if positions.len() == 0 {
        None
    } else if positions[0].key == key {
        Some(0)
    } else {
        match positions_first(positions.skip(1), key) {
            Some(k) => Some(k + 1),
            None => None,
        }
    }
}

/// The catalog lists the champions that the League client lists and whose ids are champions' own,
/// each with its name and with the positions that are recommended for its id; where none are, it
/// has none.
pub proof fn catalog_lists_each_champion(
    summaries: Seq<SummaryModel>,
    positions: Seq<PositionsModel>,
    champion: ChampionModel,
)
    ensures
        by_name(entries_of(summaries, positions)).contains(champion) ==> {
            let key = signed_decimal(champion.id as int);
            &&& exists|n: int|
                0 <= n < summaries.len() && (#[trigger] summaries[n]).id == champion.id
                    && summaries[n].name == champion.name
            &&& 1 <= champion.id < 10_000
            &&& champion.positions.len() == 0 || exists|k: int|
                0 <= k < positions.len() && (#[trigger] positions[k]).key == key
                    && positions[k].recommended_positions == champion.positions
            &&& (forall|k: int| 0 <= k < positions.len() ==> (#[trigger] positions[k]).key != key)
                || exists|k: int|
                0 <= k < positions.len() && (#[trigger] positions[k]).key == key
                    && positions[k].recommended_positions == champion.positions
        },
        forall|n: int|
            0 <= n < summaries.len() && 1 <= (#[trigger] summaries[n]).id < 10_000 ==> exists|
                listed: ChampionModel,
            | #[trigger]
                by_name(entries_of(summaries, positions)).contains(listed) && listed.id
                    == summaries[n].id && listed.name == summaries[n].name,
{
    let entries = entries_of(summaries, positions);
    catalog_is_in_order(entries);
    assert forall|c: ChampionModel| #[trigger] by_name(entries).contains(c) <==> entries.contains(
        c,
    ) by {
        broadcast use vstd::seq_lib::group_to_multiset_ensures;

        assert(by_name(entries).contains(c) <==> by_name(entries).to_multiset().count(c) > 0);
        assert(entries.contains(c) <==> entries.to_multiset().count(c) > 0);
    }
    lemma_entry_from(summaries, positions, champion);
    lemma_positions_for(positions, signed_decimal(champion.id as int));
    assert forall|n: int|
        0 <= n < summaries.len() && 1 <= (#[trigger] summaries[n]).id < 10_000 implies exists|
            listed: ChampionModel,
        | #[trigger]
        by_name(entries).contains(listed) && listed.id == summaries[n].id && listed.name
            == summaries[n].name by {
        let listed = entry_of(summaries[n], positions);
        lemma_entry_from(summaries, positions, listed);
        assert(by_name(entries).contains(listed));
    }
}

} // verus!
