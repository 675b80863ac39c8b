//! Whether the lineups of a mode refer only to heroes and items that the
//! static game data knows.
use vstd::prelude::*;
use crate::data_types::{LineupCardData, LineupPieceData};
use crate::game_data_index::GameDataIndex;
use crate::item_conflict_scorer::first_occurrences;
use crate::keyed::{keys_of, lookup};
use crate::lineup_adapter::LineupRawItem;
use crate::text::{cat, list_has, owned, push_str, str_eq, views};

verus! {

/// How well the lineups of a mode line up with the static data.
#[derive(Debug, Clone)]
pub struct ValidationReport {
    pub mode: String,
    pub total_lineups: usize,
    pub parseable_lineups: usize,
    pub unparseable_lineups: usize,
    pub unique_hero_ids_in_lineups: usize,
    pub unique_equip_ids_in_lineups: usize,
    pub total_hero_ids_in_static: usize,
    pub total_equip_ids_in_static: usize,
    /// `id (阵容: name)` for each hero the static data lacks.
    pub missing_hero_ids: Vec<String>,
    /// `id (阵容: name)` for each item the static data lacks.
    pub missing_equip_ids: Vec<String>,
    pub is_aligned: bool,
}

/// The heroes of a lineup's pieces, each with the lineup's name.
pub open spec fn pieces_heroes(name: Seq<char>, ps: Seq<LineupPieceData>) -> Seq<(Seq<char>, Seq<char>)> {
    ps.map_values(|p: LineupPieceData| (name, p.hero_id@))
}

/// The items of a piece that are not `0`, each with the lineup's name.
pub open spec fn piece_equips(name: Seq<char>, eids: Seq<Seq<char>>) -> Seq<(Seq<char>, Seq<char>)>
    decreases eids.len(),
{
    if eids.len() == 0 {
        seq![]
    } else {
        let p = piece_equips(name, eids.drop_last());
        if eids.last() == "0"@ {
            p
        } else {
            p.push((name, eids.last()))
        }
    }
}

/// The items of a lineup's pieces, in order.
pub open spec fn pieces_equips(name: Seq<char>, ps: Seq<LineupPieceData>) -> Seq<(Seq<char>, Seq<char>)>
    decreases ps.len(),
{
    if ps.len() == 0 {
        seq![]
    } else {
        pieces_equips(name, ps.drop_last()) + piece_equips(name, views(ps.last().equipment_ids@))
    }
}

/// The heroes of the final boards of the lineups, in order.
pub open spec fn card_heroes(cards: Seq<LineupCardData>) -> Seq<(Seq<char>, Seq<char>)>
    decreases cards.len(),
{
    if cards.len() == 0 {
        seq![]
    } else {
        card_heroes(cards.drop_last()) + pieces_heroes(cards.last().name@, cards.last().detail.final_heroes@)
    }
}

/// The items of the final boards of the lineups, in order.
pub open spec fn card_equips(cards: Seq<LineupCardData>) -> Seq<(Seq<char>, Seq<char>)>
    decreases cards.len(),
{
    if cards.len() == 0 {
        seq![]
    } else {
        card_equips(cards.drop_last()) + pieces_equips(cards.last().name@, cards.last().detail.final_heroes@)
    }
}

/// The ids referred to.
pub open spec fn ref_ids(refs: Seq<(Seq<char>, Seq<char>)>) -> Seq<Seq<char>> {
    refs.map_values(|r: (Seq<char>, Seq<char>)| r.1)
}

/// `id (阵容: name)` for each reference the table lacks, in order.
pub open spec fn missing_refs<V>(refs: Seq<(Seq<char>, Seq<char>)>, table: Seq<(Seq<char>, V)>) -> Seq<Seq<char>>
    decreases refs.len(),
{
    if refs.len() == 0 {
        seq![]
    } else {
        let p = missing_refs(refs.drop_last(), table);
        if lookup(table, refs.last().1) is None {
            p.push(refs.last().1 + " (阵容: "@ + refs.last().0 + ")"@)
        } else {
            p
        }
    }
}

fn note_ref(missing: &mut Vec<String>, seen: &mut Vec<String>, name: &str, id: &str, found: bool)
    ensures
        views(final(missing)@) == if found {
            views(old(missing)@)
        } else {
            views(old(missing)@).push(id@ + " (阵容: "@ + name@ + ")"@)
        },
        views(final(seen)@) == if views(old(seen)@).contains(id@) {
            views(old(seen)@)
        } else {
            views(old(seen)@).push(id@)
        },
{
    if !found {
        let mut line = cat(id, " (阵容: ");
        push_str(&mut line, name);
        push_str(&mut line, ")");
        let ghost before = views(missing@);
        missing.push(line);
        assert(views(missing@) =~= before.push(line@));
    }
    if !list_has(seen, id) {
        let ghost before = views(seen@);
        let s = owned(id);
        seen.push(s);
        assert(views(seen@) =~= before.push(s@));
    }
}

/// The validation report of a mode from its static data, its cached raw
/// lineups and the cards read from them: the lineups that did not read, the
/// distinct heroes and items the final boards use, and those the static data
/// lacks; the data is aligned when nothing is missing.
pub fn validation_report(
    mode: &str,
    index: &GameDataIndex,
    raw_items: &[LineupRawItem],
    cards: &[LineupCardData],
) -> (r: ValidationReport)
    requires
        cards@.len() <= raw_items@.len(),
    ensures
        r.mode@ == mode@,
        r.total_lineups == raw_items@.len(),
        r.parseable_lineups == cards@.len(),
        r.unparseable_lineups == raw_items@.len() - cards@.len(),
        r.unique_hero_ids_in_lineups == first_occurrences(ref_ids(card_heroes(cards@))).len(),
        r.unique_equip_ids_in_lineups == first_occurrences(ref_ids(card_equips(cards@))).len(),
        r.total_hero_ids_in_static == index.heroes_by_id@.len(),
        r.total_equip_ids_in_static == index.equipment_by_id@.len(),
        views(r.missing_hero_ids@) == missing_refs(card_heroes(cards@), keys_of(index.heroes_by_id@)),
        views(r.missing_equip_ids@) == missing_refs(card_equips(cards@), keys_of(index.equipment_by_id@)),
        r.is_aligned == (r.missing_hero_ids@.len() == 0 && r.missing_equip_ids@.len() == 0),
{
    let ghost ht = keys_of(index.heroes_by_id@);
    let ghost et = keys_of(index.equipment_by_id@);
    let mut missing_heroes: Vec<String> = Vec::new();
    let mut seen_heroes: Vec<String> = Vec::new();
    let mut missing_equips: Vec<String> = Vec::new();
    let mut seen_equips: Vec<String> = Vec::new();
    let ghost mut hs: Seq<(Seq<char>, Seq<char>)> = seq![];
    let ghost mut es: Seq<(Seq<char>, Seq<char>)> = seq![];
    let mut c: usize = 0;
    while c < cards.len()
        invariant
            ht == keys_of(index.heroes_by_id@),
            et == keys_of(index.equipment_by_id@),
            c <= cards@.len(),
            hs == card_heroes(cards@.subrange(0, c as int)),
            es == card_equips(cards@.subrange(0, c as int)),
            views(missing_heroes@) == missing_refs(hs, ht),
            views(seen_heroes@) == first_occurrences(ref_ids(hs)),
            views(missing_equips@) == missing_refs(es, et),
            views(seen_equips@) == first_occurrences(ref_ids(es)),
        decreases cards@.len() - c,
    {
        let card = &cards[c];
        let ps = &card.detail.final_heroes;
        let ghost h0 = hs;
        let ghost e0 = es;
        let mut p: usize = 0;
        while p < ps.len()
            invariant
                ht == keys_of(index.heroes_by_id@),
                et == keys_of(index.equipment_by_id@),
                p <= ps@.len(),
                hs == h0 + pieces_heroes(card.name@, ps@.subrange(0, p as int)),
                es == e0 + pieces_equips(card.name@, ps@.subrange(0, p as int)),
                views(missing_heroes@) == missing_refs(hs, ht),
                views(seen_heroes@) == first_occurrences(ref_ids(hs)),
                views(missing_equips@) == missing_refs(es, et),
                views(seen_equips@) == first_occurrences(ref_ids(es)),
            decreases ps@.len() - p,
        {
            let piece = &ps[p];
            let found = index.hero(piece.hero_id.as_str()).is_some();
            note_ref(&mut missing_heroes, &mut seen_heroes, card.name.as_str(), piece.hero_id.as_str(), found);
            proof {
                let x = (card.name@, piece.hero_id@);
                let nh = hs.push(x);
                assert(nh.drop_last() =~= hs);
                assert(ref_ids(nh) =~= ref_ids(hs).push(x.1));
                assert(ref_ids(nh).drop_last() =~= ref_ids(hs));
                assert(pieces_heroes(card.name@, ps@.subrange(0, p + 1)) =~= pieces_heroes(
                    card.name@,
                    ps@.subrange(0, p as int),
                ).push(x));
                assert(h0 + pieces_heroes(card.name@, ps@.subrange(0, p + 1)) =~= nh);
                hs = nh;
            }
            let eids = &piece.equipment_ids;
            let ghost e1 = es;
            let mut q: usize = 0;
            while q < eids.len()
                invariant
                    et == keys_of(index.equipment_by_id@),
                    q <= eids@.len(),
                    es == e1 + piece_equips(card.name@, views(eids@).subrange(0, q as int)),
                    views(missing_equips@) == missing_refs(es, et),
                    views(seen_equips@) == first_occurrences(ref_ids(es)),
                decreases eids@.len() - q,
            {
                let ghost pre = views(eids@).subrange(0, q + 1);
                assert(pre.drop_last() =~= views(eids@).subrange(0, q as int));
                assert(pre.last() == eids@[q as int]@);
                if !str_eq(eids[q].as_str(), "0") {
                    let found = index.equipment(eids[q].as_str()).is_some();
                    note_ref(&mut missing_equips, &mut seen_equips, card.name.as_str(), eids[q].as_str(), found);
                    proof {
                        let x = (card.name@, eids@[q as int]@);
                        let ne = es.push(x);
                        assert(ne.drop_last() =~= es);
                        assert(ref_ids(ne) =~= ref_ids(es).push(x.1));
                        assert(ref_ids(ne).drop_last() =~= ref_ids(es));
                        assert(e1 + piece_equips(card.name@, pre) =~= ne);
                        es = ne;
                    }
                }
                q = q + 1;
            }
            proof {
                assert(views(eids@).subrange(0, q as int) =~= views(eids@));
                let sub = ps@.subrange(0, p + 1);
                assert(sub.drop_last() =~= ps@.subrange(0, p as int));
                assert(sub.last() == *piece);
                assert(pieces_equips(card.name@, sub) == pieces_equips(card.name@, ps@.subrange(0, p as int))
                    + piece_equips(card.name@, views(eids@)));
                assert(e0 + pieces_equips(card.name@, sub) =~= es);
            }
            p = p + 1;
        }
        proof {
            let sub = cards@.subrange(0, c + 1);
            assert(sub.drop_last() =~= cards@.subrange(0, c as int));
            assert(sub.last() == *card);
            assert(ps@.subrange(0, p as int) =~= ps@);
        }
        c = c + 1;
    }
    assert(cards@.subrange(0, c as int) =~= cards@);
    let is_aligned = missing_heroes.len() == 0 && missing_equips.len() == 0;
    ValidationReport {
        mode: owned(mode),
        total_lineups: raw_items.len(),
        parseable_lineups: cards.len(),
        unparseable_lineups: raw_items.len() - cards.len(),
        unique_hero_ids_in_lineups: seen_heroes.len(),
        unique_equip_ids_in_lineups: seen_equips.len(),
        total_hero_ids_in_static: index.heroes_by_id.len(),
        total_equip_ids_in_static: index.equipment_by_id.len(),
        missing_hero_ids: missing_heroes,
        missing_equip_ids: missing_equips,
        is_aligned,
    }
}

} // verus!
