//! Rules of the special game modes: god rewards (mode 17), unlock tasks
//! (mode 16) and the chosen trait (mode 4), read from the mode data of the
//! best lineups.
use vstd::prelude::*;
use crate::json::{int_of, items_of, member, text_of, JsonValue, JsonView};
use crate::rule_types::LineupProfile;
use crate::text::{cat, int_text, int_to_text, owned, push_str, str_eq, views};

verus! {

/// The special rules of a mode.
#[derive(Debug, Clone)]
pub struct ModeSpecialPlan {
    pub mode: String,
    pub god_reward_picks: Vec<GodRewardPick>,
    /// Highest priority first.
    pub task_priorities: Vec<TaskPriority>,
    pub chosen_advice: Option<ChosenAdvice>,
    pub extra_rules: Vec<String>,
}

/// A god reward to take at a stage.
#[derive(Debug, Clone)]
pub struct GodRewardPick {
    pub stage: i32,
    pub recommended_god_id: String,
    pub reason: String,
}

/// An unlock task and how urgent it is.
#[derive(Debug, Clone)]
pub struct TaskPriority {
    pub task_id: String,
    pub hero_name: String,
    pub priority: i32,
    pub reason: String,
}

/// Which chosen trait to aim for.
#[derive(Debug, Clone)]
pub struct ChosenAdvice {
    pub target_trait: String,
    pub backup_heroes: Vec<String>,
    pub lock_early: bool,
}

/// Plans the special rules of a mode.
pub struct ModeSpecialPlanner;

impl View for GodRewardPick {
    type V = (i32, Seq<char>, Seq<char>);

    open spec fn view(&self) -> (i32, Seq<char>, Seq<char>) {
        (self.stage, self.recommended_god_id@, self.reason@)
    }
}

impl View for TaskPriority {
    type V = (Seq<char>, Seq<char>, i32, Seq<char>);

    open spec fn view(&self) -> (Seq<char>, Seq<char>, i32, Seq<char>) {
        (self.task_id@, self.hero_name@, self.priority, self.reason@)
    }
}

impl View for ChosenAdvice {
    type V = (Seq<char>, Seq<Seq<char>>, bool);

    open spec fn view(&self) -> (Seq<char>, Seq<Seq<char>>, bool) {
        (self.target_trait@, views(self.backup_heroes@), self.lock_early)
    }
}

// ---------------------------------------------------------------------------
// Reading the mode data
// ---------------------------------------------------------------------------

/// The items of the array under `key`, none where there is no such array.
pub open spec fn array_at(v: JsonView, key: Seq<char>) -> Seq<JsonView> {
    match member(v, key) {
        Some(a) => match items_of(a) {
            Some(items) => items,
            None => Seq::empty(),
        },
        None => Seq::empty(),
    }
}

/// Whether the member `key` is an array.
pub open spec fn has_array(v: JsonView, key: Seq<char>) -> bool {
    match member(v, key) {
        Some(a) => items_of(a) is Some,
        None => false,
    }
}

/// The text under `key`, empty where there is no text.
pub open spec fn text_at(v: JsonView, key: Seq<char>) -> Seq<char> {
    match member(v, key) {
        Some(t) => match text_of(t) {
            Some(s) => s,
            None => Seq::empty(),
        },
        None => Seq::empty(),
    }
}

/// The pick of a god reward entry with an integer stage and a text god id.
pub open spec fn god_pick(g: JsonView, lineup: Seq<char>) -> Option<(i32, Seq<char>, Seq<char>)> {
    match (member(g, "stage"@), member(g, "god_id"@)) {
        (Some(sv), Some(gv)) => match (int_of(sv), text_of(gv)) {
            (Some(stage), Some(god)) => Some(
                (
                    stage as i32,
                    god,
                    int_text(stage as int) + " 阶段 "@ + god + " 神明奖励（"@ + int_text(array_at(g, "wish_ids"@).len() as int)
                        + " 个选项），适配阵容 "@ + lineup,
                ),
            ),
            _ => None,
        },
        _ => None,
    }
}

/// The picks of the god reward entries, in order.
pub open spec fn god_picks(gods: Seq<JsonView>, lineup: Seq<char>) -> Seq<(i32, Seq<char>, Seq<char>)>
    decreases gods.len(),
{
    if gods.len() == 0 {
        Seq::empty()
    } else {
        match god_pick(gods.last(), lineup) {
            Some(p) => god_picks(gods.drop_last(), lineup).push(p),
            None => god_picks(gods.drop_last(), lineup),
        }
    }
}

/// The god reward picks of the first `n` lineups.
pub open spec fn picks_of_lineups(ps: Seq<LineupProfile>) -> Seq<(i32, Seq<char>, Seq<char>)>
    decreases ps.len(),
{
    if ps.len() == 0 {
        Seq::empty()
    } else {
        picks_of_lineups(ps.drop_last()) + god_picks(array_at(ps.last().mode_specific@, "god_rewards"@), ps.last().name@)
    }
}

/// The unlock task entries as priorities, in order.
pub open spec fn task_entries(tasks: Seq<JsonView>, lineup: Seq<char>) -> Seq<(Seq<char>, Seq<char>, i32, Seq<char>)> {
    tasks.map_values(
        |t: JsonView| (text_at(t, "task_id"@), text_at(t, "hero_id"@), 5i32, "阵容 "@ + lineup + " 的任务解锁"@),
    )
}

/// The task priorities of the lineups.
pub open spec fn tasks_of_lineups(ps: Seq<LineupProfile>) -> Seq<(Seq<char>, Seq<char>, i32, Seq<char>)>
    decreases ps.len(),
{
    if ps.len() == 0 {
        Seq::empty()
    } else {
        tasks_of_lineups(ps.drop_last()) + task_entries(array_at(ps.last().mode_specific@, "unlock_tasks"@), ps.last().name@)
    }
}

/// The chosen-trait advice of a lineup that has a chosen member: its trait id
/// and type, locked early for a base strength of 80 or more.
pub open spec fn chosen_of(p: LineupProfile) -> Option<(Seq<char>, Seq<Seq<char>>, bool)> {
    match member(p.mode_specific@, "chosen_contact"@) {
        Some(c) => Some((text_at(c, "id"@) + " ("@ + text_at(c, "type"@) + ")"@, Seq::empty(), p.base_tier >= 80)),
        None => None,
    }
}

pub open spec fn first_n(ps: Seq<LineupProfile>, n: int) -> Seq<LineupProfile> {
    if ps.len() < n {
        ps
    } else {
        ps.subrange(0, n)
    }
}

pub open spec fn god_rule() -> Seq<char> {
    "星神模式：优先选择经济/战力神祇，2阶段偏经济，3阶段后偏战力"@
}

pub open spec fn task_rule() -> Seq<char> {
    "任务模式：优先完成主C/主坦的解锁任务，3-2前至少完成一个关键任务"@
}

pub open spec fn chosen_rule() -> Seq<char> {
    "天选模式：优先拿阵容核心羁绊天选，若4-1前未拿到核心天选考虑转阵容"@
}

pub struct PlanView {
    pub mode: Seq<char>,
    pub picks: Seq<(i32, Seq<char>, Seq<char>)>,
    pub tasks: Seq<(Seq<char>, Seq<char>, i32, Seq<char>)>,
    pub chosen: Option<(Seq<char>, Seq<Seq<char>>, bool)>,
    pub rules: Seq<Seq<char>>,
}

impl View for ModeSpecialPlan {
    type V = PlanView;

    open spec fn view(&self) -> PlanView {
        PlanView {
            mode: self.mode@,
            picks: self.god_reward_picks@.map_values(|p: GodRewardPick| p@),
            tasks: self.task_priorities@.map_values(|t: TaskPriority| t@),
            chosen: match self.chosen_advice {
                Some(c) => Some(c@),
                None => None,
            },
            rules: views(self.extra_rules@),
        }
    }
}

/// The plan of a mode: god reward picks from the first three lineups in mode
/// 17, their unlock tasks in mode 16, the chosen trait of the first lineup in
/// mode 4, each with its rule text; nothing in any other mode.
pub open spec fn mode_plan(mode: Seq<char>, ps: Seq<LineupProfile>) -> PlanView {
    let none = PlanView { mode, picks: Seq::empty(), tasks: Seq::empty(), chosen: None, rules: Seq::empty() };
    if mode == "17"@ {
        PlanView { picks: picks_of_lineups(first_n(ps, 3)), rules: seq![god_rule()], ..none }
    } else if mode == "16"@ {
        PlanView { tasks: tasks_of_lineups(first_n(ps, 3)), rules: seq![task_rule()], ..none }
    } else if mode == "4"@ {
        PlanView {
            chosen: if ps.len() > 0 { chosen_of(ps[0]) } else { None },
            rules: seq![chosen_rule()],
            ..none
        }
    } else {
        none
    }
}

// ---------------------------------------------------------------------------
// Planning
// ---------------------------------------------------------------------------

fn array_items<'a>(v: &'a JsonValue, key: &str) -> (r: Option<&'a Vec<JsonValue>>)
    ensures
        match r {
            Some(a) => has_array(v@, key@) && a@.map_values(|x: JsonValue| x@) == array_at(v@, key@),
            None => !has_array(v@, key@) && array_at(v@, key@) == Seq::<JsonView>::empty(),
        },
{
    match v.get(key) {
        Some(a) => a.as_array(),
        None => None,
    }
}

fn text_or_empty(v: &JsonValue, key: &str) -> (r: String)
    ensures
        r@ == text_at(v@, key@),
{
    proof {
        reveal_strlit("");
    }
    match v.get(key) {
        Some(t) => match t.as_str() {
            Some(s) => owned(s),
            None => owned(""),
        },
        None => owned(""),
    }
}

fn pick_of(g: &JsonValue, lineup: &str) -> (r: Option<GodRewardPick>)
    ensures
        match r {
            Some(p) => god_pick(g@, lineup@) == Some(p@),
            None => god_pick(g@, lineup@) is None,
        },
{
    let stage = match g.get("stage") {
        Some(v) => v.as_i64(),
        None => None,
    };
    let god = match g.get("god_id") {
        Some(v) => v.as_str(),
        None => None,
    };
    match (stage, god) {
        (Some(stage), Some(god)) => {
            let wishes: usize = match array_items(g, "wish_ids") {
                Some(a) => a.len(),
                None => 0,
            };
            let mut reason = int_to_text(stage);
            push_str(&mut reason, " 阶段 ");
            push_str(&mut reason, god);
            push_str(&mut reason, " 神明奖励（");
            proof {
                assert(wishes as int == array_at(g@, "wish_ids"@).len());
            }
            let wish_text = crate::text::nat_to_text(wishes as u64);
            push_str(&mut reason, wish_text.as_str());
            push_str(&mut reason, " 个选项），适配阵容 ");
            push_str(&mut reason, lineup);
            Some(GodRewardPick { stage: stage as i32, recommended_god_id: owned(god), reason })
        },
        _ => None,
    }
}

fn push_god_picks(out: &mut Vec<GodRewardPick>, gods: &Vec<JsonValue>, lineup: &str)
    ensures
        final(out)@.map_values(|p: GodRewardPick| p@) == old(out)@.map_values(|p: GodRewardPick| p@) + god_picks(
            gods@.map_values(|x: JsonValue| x@),
            lineup@,
        ),
{
    let ghost start = out@.map_values(|p: GodRewardPick| p@);
    let ghost gv = gods@.map_values(|x: JsonValue| x@);
    let mut i: usize = 0;
    assert(god_picks(gv.subrange(0, 0), lineup@) =~= Seq::empty());
    assert(out@.map_values(|p: GodRewardPick| p@) =~= start + Seq::empty());
    while i < gods.len()
        invariant
            i <= gods@.len(),
            gv == gods@.map_values(|x: JsonValue| x@),
            out@.map_values(|p: GodRewardPick| p@) == start + god_picks(gv.subrange(0, i as int), lineup@),
        decreases gods@.len() - i,
    {
        assert(gv.subrange(0, i + 1).drop_last() =~= gv.subrange(0, i as int));
        assert(gv.subrange(0, i + 1).last() == gods@[i as int]@);
        let ghost before = out@.map_values(|p: GodRewardPick| p@);
        match pick_of(&gods[i], lineup) {
            Some(p) => {
                let ghost pv = p@;
                out.push(p);
                assert(out@.map_values(|p: GodRewardPick| p@) =~= before.push(pv));
            },
            None => {},
        }
        i = i + 1;
    }
    assert(gv.subrange(0, i as int) =~= gv);
}

fn push_tasks(out: &mut Vec<TaskPriority>, tasks: &Vec<JsonValue>, lineup: &str)
    ensures
        final(out)@.map_values(|t: TaskPriority| t@) == old(out)@.map_values(|t: TaskPriority| t@) + task_entries(
            tasks@.map_values(|x: JsonValue| x@),
            lineup@,
        ),
{
    let ghost start = out@.map_values(|t: TaskPriority| t@);
    let ghost tv = tasks@.map_values(|x: JsonValue| x@);
    let mut i: usize = 0;
    assert(out@.map_values(|t: TaskPriority| t@) =~= start + task_entries(tv.subrange(0, 0), lineup@));
    while i < tasks.len()
        invariant
            i <= tasks@.len(),
            tv == tasks@.map_values(|x: JsonValue| x@),
            out@.map_values(|t: TaskPriority| t@) == start + task_entries(tv.subrange(0, i as int), lineup@),
        decreases tasks@.len() - i,
    {
        let t = &tasks[i];
        let mut reason = cat("阵容 ", lineup);
        push_str(&mut reason, " 的任务解锁");
        let entry = TaskPriority {
            task_id: text_or_empty(t, "task_id"),
            hero_name: text_or_empty(t, "hero_id"),
            priority: 5,
            reason,
        };
        let ghost before = out@.map_values(|t: TaskPriority| t@);
        let ghost ev = entry@;
        out.push(entry);
        assert(out@.map_values(|t: TaskPriority| t@) =~= before.push(ev));
        i = i + 1;
        assert(task_entries(tv.subrange(0, i as int), lineup@) =~= task_entries(tv.subrange(0, i - 1), lineup@).push(ev));
    }
    assert(tv.subrange(0, i as int) =~= tv);
}

impl ModeSpecialPlanner {
    /// The special rules of `mode` for the given lineups, best first.
    pub fn plan(mode: &str, profiles: &[LineupProfile]) -> (r: ModeSpecialPlan)
        ensures
            r@ == mode_plan(mode@, profiles@),
    {
        let mut god_reward_picks: Vec<GodRewardPick> = Vec::new();
        let mut task_priorities: Vec<TaskPriority> = Vec::new();
        let mut chosen_advice: Option<ChosenAdvice> = None;
        let mut extra_rules: Vec<String> = Vec::new();
        let n: usize = if profiles.len() < 3 { profiles.len() } else { 3 };
        let ghost ps = first_n(profiles@, 3);
        assert(ps =~= profiles@.subrange(0, n as int));
        if str_eq(mode, "17") {
            let mut i: usize = 0;
            while i < n
                invariant
                    i <= n,
                    n <= profiles@.len(),
                    ps == profiles@.subrange(0, n as int),
                    god_reward_picks@.map_values(|p: GodRewardPick| p@) == picks_of_lineups(ps.subrange(0, i as int)),
                decreases n - i,
            {
                assert(ps.subrange(0, i + 1).drop_last() =~= ps.subrange(0, i as int));
                assert(ps.subrange(0, i + 1).last() == profiles@[i as int]);
                let p = &profiles[i];
                match array_items(&p.mode_specific, "god_rewards") {
                    Some(gods) => push_god_picks(&mut god_reward_picks, gods, p.name.as_str()),
                    None => {
                        assert(god_reward_picks@.map_values(|q: GodRewardPick| q@) =~= picks_of_lineups(
                            ps.subrange(0, i + 1),
                        ));
                    },
                }
                i = i + 1;
            }
            assert(ps.subrange(0, n as int) =~= ps);
            extra_rules.push(owned("星神模式：优先选择经济/战力神祇，2阶段偏经济，3阶段后偏战力"));
        } else if str_eq(mode, "16") {
            let mut i: usize = 0;
            while i < n
                invariant
                    i <= n,
                    n <= profiles@.len(),
                    ps == profiles@.subrange(0, n as int),
                    task_priorities@.map_values(|t: TaskPriority| t@) == tasks_of_lineups(ps.subrange(0, i as int)),
                decreases n - i,
            {
                assert(ps.subrange(0, i + 1).drop_last() =~= ps.subrange(0, i as int));
                assert(ps.subrange(0, i + 1).last() == profiles@[i as int]);
                let p = &profiles[i];
                match array_items(&p.mode_specific, "unlock_tasks") {
                    Some(tasks) => push_tasks(&mut task_priorities, tasks, p.name.as_str()),
                    None => {
                        assert(task_priorities@.map_values(|t: TaskPriority| t@) =~= tasks_of_lineups(
                            ps.subrange(0, i + 1),
                        ));
                    },
                }
                i = i + 1;
            }
            assert(ps.subrange(0, n as int) =~= ps);
            extra_rules.push(owned("任务模式：优先完成主C/主坦的解锁任务，3-2前至少完成一个关键任务"));
        } else if str_eq(mode, "4") {
            if profiles.len() > 0 {
                let p = &profiles[0];
                match p.mode_specific.get("chosen_contact") {
                    Some(c) => {
                        let mut target = text_or_empty(c, "id");
                        push_str(&mut target, " (");
                        push_str(&mut target, text_or_empty(c, "type").as_str());
                        push_str(&mut target, ")");
                        let backups: Vec<String> = Vec::new();
                        assert(views(backups@) =~= Seq::<Seq<char>>::empty());
                        chosen_advice = Some(ChosenAdvice { target_trait: target, backup_heroes: backups, lock_early: p.base_tier >= 80 });
                    },
                    None => {},
                }
            }
            extra_rules.push(owned("天选模式：优先拿阵容核心羁绊天选，若4-1前未拿到核心天选考虑转阵容"));
        }
        let r = ModeSpecialPlan { mode: owned(mode), god_reward_picks, task_priorities, chosen_advice, extra_rules };
        assert(r@.picks =~= mode_plan(mode@, profiles@).picks);
        assert(r@.tasks =~= mode_plan(mode@, profiles@).tasks);
        assert(r@.rules =~= mode_plan(mode@, profiles@).rules);
        r
    }
}

} // verus!
