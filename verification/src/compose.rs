//! The interactive creation of issues, pull requests and releases: what to
//! ask next, given what was answered. The prompts themselves are the
//! caller's; each answer comes back as an event.
use vstd::prelude::*;

use crate::issue::{assignee_list, parse_assignees, LabelRef};
use crate::pull::MilestoneRef;
use crate::text::{chars_of, push_line, str_eq, string_of, strs, trim, trim_exec};

verus! {

/// A name that can be picked, with the id it stands for.
pub open spec fn options_of(ls: Seq<LabelRef>) -> Seq<(Seq<char>, i64)>
    decreases ls.len(),
{
    if ls.len() == 0 {
        seq![]
    } else {
        let p = options_of(ls.drop_last());
        match (ls.last().name, ls.last().id) {
            (Some(n), Some(i)) => p.push((n@, i)),
            _ => p,
        }
    }
}

/// The id of the first option called `name`.
pub open spec fn first_option(opts: Seq<(Seq<char>, i64)>, name: Seq<char>) -> Option<i64>
    decreases opts.len(),
{
    if opts.len() == 0 {
        None
    } else {
        match first_option(opts.drop_last(), name) {
            Some(x) => Some(x),
            None => if opts.last().0 == name {
                Some(opts.last().1)
            } else {
                None
            },
        }
    }
}

/// The ids of the picked names, in the order picked.
pub open spec fn chosen_ids(opts: Seq<(Seq<char>, i64)>, chosen: Seq<Seq<char>>) -> Seq<i64>
    decreases chosen.len(),
{
    if chosen.len() == 0 {
        seq![]
    } else {
        let p = chosen_ids(opts, chosen.drop_last());
        match first_option(opts, chosen.last()) {
            Some(i) => p.push(i),
            None => p,
        }
    }
}

/// The views of options.
pub open spec fn option_views(v: Seq<(String, i64)>) -> Seq<(Seq<char>, i64)> {
    v.map_values(|p: (String, i64)| (p.0@, p.1))
}

/// The names of options.
pub open spec fn option_names(v: Seq<(Seq<char>, i64)>) -> Seq<Seq<char>> {
    v.map_values(|p: (Seq<char>, i64)| p.0)
}

/// The entries that have both a name and an id.
pub fn options_exec(ls: &[LabelRef]) -> (r: Vec<(String, i64)>)
    ensures
        option_views(r@) == options_of(ls@),
{
    let mut out: Vec<(String, i64)> = Vec::new();
    let mut k: usize = 0;
    assert(ls@.take(0) =~= Seq::<LabelRef>::empty());
    while k < ls.len()
        invariant
            k <= ls@.len(),
            option_views(out@) == options_of(ls@.take(k as int)),
        decreases ls.len() - k,
    {
        assert(ls@.take(k + 1).drop_last() =~= ls@.take(k as int));
        assert(ls@.take(k + 1).last() == ls@[k as int]);
        let ghost before = option_views(out@);
        match (&ls[k].name, ls[k].id) {
            (Some(n), Some(i)) => {
                out.push((n.clone(), i));
                assert(option_views(out@) =~= before.push((n@, i)));
            },
            _ => {},
        }
        k += 1;
    }
    assert(ls@.take(ls.len() as int) =~= ls@);
    out
}

/// The id of the first option called `name`.
pub fn first_option_exec(opts: &[(String, i64)], name: &str) -> (r: Option<i64>)
    ensures
        r == first_option(option_views(opts@), name@),
{
    let mut found: Option<i64> = None;
    let mut k: usize = 0;
    let ghost ov = option_views(opts@);
    assert(ov.take(0) =~= Seq::<(Seq<char>, i64)>::empty());
    while k < opts.len()
        invariant
            k <= opts@.len(),
            ov == option_views(opts@),
            found == first_option(ov.take(k as int), name@),
        decreases opts.len() - k,
    {
        assert(ov.take(k + 1).drop_last() =~= ov.take(k as int));
        assert(ov.take(k + 1).last() == (opts@[k as int].0@, opts@[k as int].1));
        if found.is_none() && str_eq(opts[k].0.as_str(), name) {
            found = Some(opts[k].1);
        }
        k += 1;
    }
    assert(ov.take(opts.len() as int) =~= ov);
    found
}

/// The ids of the picked names, in the order picked (names without an
/// option are skipped).
pub fn chosen_ids_exec(opts: &[(String, i64)], chosen: &[String]) -> (r: Vec<i64>)
    ensures
        r@ == chosen_ids(option_views(opts@), strs(chosen@)),
{
    let mut out: Vec<i64> = Vec::new();
    let mut k: usize = 0;
    let ghost cs = strs(chosen@);
    assert(cs.take(0) =~= Seq::<Seq<char>>::empty());
    while k < chosen.len()
        invariant
            k <= chosen@.len(),
            cs == strs(chosen@),
            out@ == chosen_ids(option_views(opts@), cs.take(k as int)),
        decreases chosen.len() - k,
    {
        assert(cs.take(k + 1).drop_last() =~= cs.take(k as int));
        assert(cs.take(k + 1).last() == chosen@[k as int]@);
        match first_option_exec(opts, chosen[k].as_str()) {
            Some(id) => out.push(id),
            None => {},
        }
        k += 1;
    }
    assert(cs.take(chosen.len() as int) =~= cs);
    out
}

/// The names of options, for a picker.
fn names_exec(opts: &[(String, i64)]) -> (r: Vec<String>)
    ensures
        strs(r@) == option_names(option_views(opts@)),
{
    let mut out: Vec<String> = Vec::new();
    let mut k: usize = 0;
    while k < opts.len()
        invariant
            k <= opts@.len(),
            strs(out@) == option_names(option_views(opts@)).take(k as int),
        decreases opts.len() - k,
    {
        let ghost before = strs(out@);
        out.push(opts[k].0.clone());
        assert(strs(out@) =~= before.push(opts@[k as int].0@));
        assert(option_names(option_views(opts@)).take(k + 1) =~= option_names(
            option_views(opts@),
        ).take(k as int).push(opts@[k as int].0@));
        k += 1;
    }
    assert(option_names(option_views(opts@)).take(opts.len() as int) =~= option_names(
        option_views(opts@),
    ));
    out
}

/// Where the interactive `gt issue create` stands.
#[derive(Debug, Clone, Copy, PartialEq, Eq)]
pub enum IssueStage {
    Title,
    Body,
    Next,
    Metadata,
    Labels,
    Assignees,
    Milestone,
    Confirm,
}

/// What the interactive `gt issue create` has gathered.
#[derive(Debug, Clone)]
pub struct IssueFlow {
    pub stage: IssueStage,
    pub title: String,
    pub body: String,
    pub label_ids: Vec<i64>,
    pub assignees: Vec<String>,
    pub milestone_id: Option<i64>,
    pub want_labels: bool,
    pub want_assignees: bool,
    pub want_milestone: bool,
    pub label_options: Vec<(String, i64)>,
    pub milestone_options: Vec<(String, i64)>,
}

/// An answer to the last question of the interactive `gt issue create`.
#[derive(Debug, Clone)]
pub enum IssueEvent {
    Title(String),
    Body(String),
    /// The option picked at "What's next?".
    Choice(String),
    /// The kinds of metadata picked.
    Metadata(Vec<String>),
    /// The labels of the repository.
    Labels(Vec<LabelRef>),
    /// The label names picked.
    LabelsChosen(Vec<String>),
    /// The text typed at the assignee prompt.
    Assignees(String),
    /// The milestones of the repository.
    Milestones(Vec<MilestoneRef>),
    /// The milestone title picked.
    MilestoneChosen(String),
}

/// What the interactive `gt issue create` does next.
#[derive(Debug, Clone)]
pub enum IssueAsk {
    /// Ask for the title (required).
    Title,
    /// Open the editor for the body.
    Body,
    /// Ask "What's next?" with these options.
    Next(Vec<String>),
    /// Ask which metadata to add, among these.
    Metadata(Vec<String>),
    /// Fetch the repository's labels.
    FetchLabels,
    /// Let the user pick among these label names.
    Labels(Vec<String>),
    /// Ask for comma-separated usernames.
    Assignees,
    /// Fetch the repository's milestones.
    FetchMilestones,
    /// Let the user pick one of these milestone titles.
    Milestone(Vec<String>),
    /// Stop: the user cancelled.
    Cancelled,
    /// Create the issue from what was gathered.
    Submit,
}

/// A step: a line to print first, if any, and what to do.
#[derive(Debug, Clone)]
pub struct IssueStep {
    pub notice: Option<String>,
    pub ask: IssueAsk,
}

/// The stage after `from`, skipping the metadata not wanted.
pub open spec fn stage_after(f: IssueFlow, from: IssueStage) -> IssueStage {
    match from {
        IssueStage::Metadata => if f.want_labels {
            IssueStage::Labels
        } else if f.want_assignees {
            IssueStage::Assignees
        } else if f.want_milestone {
            IssueStage::Milestone
        } else {
            IssueStage::Confirm
        },
        IssueStage::Labels => if f.want_assignees {
            IssueStage::Assignees
        } else if f.want_milestone {
            IssueStage::Milestone
        } else {
            IssueStage::Confirm
        },
        IssueStage::Assignees => if f.want_milestone {
            IssueStage::Milestone
        } else {
            IssueStage::Confirm
        },
        _ => IssueStage::Confirm,
    }
}

/// What a stage asks when it opens.
pub open spec fn opens_with(stage: IssueStage, ask: IssueAsk) -> bool {
    match stage {
        IssueStage::Title => ask is Title,
        IssueStage::Body => ask is Body,
        IssueStage::Next => ask matches IssueAsk::Next(v) && strs(v@) == seq![
            "Submit"@,
            "Add metadata"@,
            "Cancel"@,
        ],
        IssueStage::Metadata => ask matches IssueAsk::Metadata(v) && strs(v@) == seq![
            "Labels"@,
            "Assignees"@,
            "Milestone"@,
        ],
        IssueStage::Labels => ask is FetchLabels,
        IssueStage::Assignees => ask is Assignees,
        IssueStage::Milestone => ask is FetchMilestones,
        IssueStage::Confirm => ask matches IssueAsk::Next(v) && strs(v@) == seq!["Submit"@, "Cancel"@],
    }
}

/// What a stage asks when it opens.
fn opening(stage: IssueStage) -> (r: IssueAsk)
    ensures
        opens_with(stage, r),
{
    match stage {
        IssueStage::Title => IssueAsk::Title,
        IssueStage::Body => IssueAsk::Body,
        IssueStage::Next => {
            let mut v: Vec<String> = Vec::new();
            push_line(&mut v, &chars_of("Submit"));
            push_line(&mut v, &chars_of("Add metadata"));
            push_line(&mut v, &chars_of("Cancel"));
            assert(strs(v@) =~= seq!["Submit"@, "Add metadata"@, "Cancel"@]);
            IssueAsk::Next(v)
        },
        IssueStage::Metadata => {
            let mut v: Vec<String> = Vec::new();
            push_line(&mut v, &chars_of("Labels"));
            push_line(&mut v, &chars_of("Assignees"));
            push_line(&mut v, &chars_of("Milestone"));
            assert(strs(v@) =~= seq!["Labels"@, "Assignees"@, "Milestone"@]);
            IssueAsk::Metadata(v)
        },
        IssueStage::Labels => IssueAsk::FetchLabels,
        IssueStage::Assignees => IssueAsk::Assignees,
        IssueStage::Milestone => IssueAsk::FetchMilestones,
        IssueStage::Confirm => {
            let mut v: Vec<String> = Vec::new();
            push_line(&mut v, &chars_of("Submit"));
            push_line(&mut v, &chars_of("Cancel"));
            assert(strs(v@) =~= seq!["Submit"@, "Cancel"@]);
            IssueAsk::Next(v)
        },
    }
}

/// Whether `name` was picked.
fn picked(names: &[String], name: &str) -> (r: bool)
    ensures
        r == strs(names@).contains(name@),
{
    let mut k: usize = 0;
    while k < names.len()
        invariant
            k <= names@.len(),
            forall|j: int| 0 <= j < k ==> names@[j]@ != name@,
        decreases names.len() - k,
    {
        if str_eq(names[k].as_str(), name) {
            assert(strs(names@)[k as int] == name@);
            return true;
        }
        k += 1;
    }
    proof {
        if strs(names@).contains(name@) {
            let j = choose|j: int| 0 <= j < strs(names@).len() && strs(names@)[j] == name@;
            assert(names@[j]@ == name@);
        }
    }
    false
}

impl IssueFlow {
    /// The flow before the first question.
    pub fn new() -> (r: IssueFlow)
        ensures
            r.stage == IssueStage::Title,
            r.title@.len() == 0,
            r.body@.len() == 0,
            r.label_ids@.len() == 0,
            r.assignees@.len() == 0,
            r.milestone_id is None,
            !r.want_labels,
            !r.want_assignees,
            !r.want_milestone,
            r.label_options@.len() == 0,
            r.milestone_options@.len() == 0,
    {
        proof {
            reveal_strlit("");
        }
        IssueFlow {
            stage: IssueStage::Title,
            title: string_of(&chars_of("")),
            body: string_of(&chars_of("")),
            label_ids: Vec::new(),
            assignees: Vec::new(),
            milestone_id: None,
            want_labels: false,
            want_assignees: false,
            want_milestone: false,
            label_options: Vec::new(),
            milestone_options: Vec::new(),
        }
    }

    /// Takes one answer and says what to do next: title (a blank one is
    /// asked again), then body, then
    /// "What's next?" (Submit, Add metadata, Cancel); with metadata, the
    /// labels, assignees and milestone picked, each fetched and asked in
    /// turn, then a last Submit or Cancel. An answer that does not fit the
    /// stage changes nothing and the stage's question is asked again.
    pub fn step(&mut self, event: IssueEvent) -> (r: IssueStep)
        ensures
            match (old(self).stage, event) {
                (IssueStage::Title, IssueEvent::Title(t)) => if trim(t@).len() == 0 {
                    *final(self) == *old(self) && r.ask is Title && r.notice is None
                } else {
                    final(self).title@ == t@
                    && final(self).stage == IssueStage::Body && r.ask is Body && r.notice is None
                    && *final(self) == (IssueFlow {
                    title: final(self).title,
                    stage: final(self).stage,
                    ..*old(self)
                })
                },
                (IssueStage::Body, IssueEvent::Body(b)) => final(self).body@ == b@
                    && final(self).stage == IssueStage::Next && opens_with(IssueStage::Next, r.ask)
                    && *final(self) == (IssueFlow {
                    body: final(self).body,
                    stage: final(self).stage,
                    ..*old(self)
                }),
                (IssueStage::Next, IssueEvent::Choice(c)) => if c@ == "Cancel"@ {
                    r.ask is Cancelled && *final(self) == *old(self)
                } else if c@ == "Add metadata"@ {
                    final(self).stage == IssueStage::Metadata && opens_with(
                        IssueStage::Metadata,
                        r.ask,
                    ) && *final(self) == (IssueFlow { stage: final(self).stage, ..*old(self) })
                } else {
                    r.ask is Submit && *final(self) == *old(self)
                },
                (IssueStage::Metadata, IssueEvent::Metadata(cs)) => {
                    &&& final(self).want_labels == strs(cs@).contains("Labels"@)
                    &&& final(self).want_assignees == strs(cs@).contains("Assignees"@)
                    &&& final(self).want_milestone == strs(cs@).contains("Milestone"@)
                    &&& final(self).stage == stage_after(*final(self), IssueStage::Metadata)
                    &&& opens_with(final(self).stage, r.ask)
                    &&& *final(self) == (IssueFlow {
                        want_labels: final(self).want_labels,
                        want_assignees: final(self).want_assignees,
                        want_milestone: final(self).want_milestone,
                        stage: final(self).stage,
                        ..*old(self)
                    })
                },
                (IssueStage::Labels, IssueEvent::Labels(ls)) => {
                    &&& option_views(final(self).label_options@) == options_of(ls@)
                    &&& *final(self) == (IssueFlow {
                        label_options: final(self).label_options,
                        stage: final(self).stage,
                        ..*old(self)
                    })
                    &&& if options_of(ls@).len() == 0 {
                        &&& r.notice matches Some(n) && n@
                            == "No labels found in this repository."@
                        &&& final(self).stage == stage_after(*old(self), IssueStage::Labels)
                        &&& opens_with(final(self).stage, r.ask)
                    } else {
                        &&& final(self).stage == IssueStage::Labels
                        &&& r.ask matches IssueAsk::Labels(v) && strs(v@) == option_names(
                            options_of(ls@),
                        )
                    }
                },
                (IssueStage::Labels, IssueEvent::LabelsChosen(ns)) => {
                    &&& final(self).label_ids@ == old(self).label_ids@ + chosen_ids(
                        option_views(old(self).label_options@),
                        strs(ns@),
                    )
                    &&& *final(self) == (IssueFlow {
                        label_ids: final(self).label_ids,
                        stage: final(self).stage,
                        ..*old(self)
                    })
                    &&& final(self).stage == stage_after(*old(self), IssueStage::Labels)
                    &&& opens_with(final(self).stage, r.ask)
                },
                (IssueStage::Assignees, IssueEvent::Assignees(t)) => {
                    &&& strs(final(self).assignees@) == assignee_list(t@)
                    &&& *final(self) == (IssueFlow {
                        assignees: final(self).assignees,
                        stage: final(self).stage,
                        ..*old(self)
                    })
                    &&& final(self).stage == stage_after(*old(self), IssueStage::Assignees)
                    &&& opens_with(final(self).stage, r.ask)
                },
                (IssueStage::Milestone, IssueEvent::Milestones(ms)) => {
                    let as_refs = ms@.map_values(
                        |m: MilestoneRef| LabelRef { id: m.id, name: m.title },
                    );
                    &&& option_views(final(self).milestone_options@) == options_of(as_refs)
                    &&& *final(self) == (IssueFlow {
                        milestone_options: final(self).milestone_options,
                        stage: final(self).stage,
                        ..*old(self)
                    })
                    &&& if options_of(as_refs).len() == 0 {
                        &&& r.notice matches Some(n) && n@
                            == "No milestones found in this repository."@
                        &&& final(self).stage == IssueStage::Confirm
                        &&& opens_with(IssueStage::Confirm, r.ask)
                    } else {
                        &&& final(self).stage == IssueStage::Milestone
                        &&& r.ask matches IssueAsk::Milestone(v) && strs(v@) == option_names(
                            options_of(as_refs),
                        )
                    }
                },
                (IssueStage::Milestone, IssueEvent::MilestoneChosen(n)) => {
                    &&& final(self).milestone_id == first_option(
                        option_views(old(self).milestone_options@),
                        n@,
                    )
                    &&& *final(self) == (IssueFlow {
                        milestone_id: final(self).milestone_id,
                        stage: final(self).stage,
                        ..*old(self)
                    })
                    &&& final(self).stage == IssueStage::Confirm
                    &&& opens_with(IssueStage::Confirm, r.ask)
                },
                (IssueStage::Confirm, IssueEvent::Choice(c)) => if c@ == "Cancel"@ {
                    r.ask is Cancelled && *final(self) == *old(self)
                } else {
                    r.ask is Submit && *final(self) == *old(self)
                },
                (s, _) => *final(self) == *old(self) && opens_with(s, r.ask),
            },
    {
        match (self.stage, event) {
            (IssueStage::Title, IssueEvent::Title(t)) => {
                if !title_ok(t.as_str()) {
                    return IssueStep { notice: None, ask: IssueAsk::Title };
                }
                self.title = t;
                self.stage = IssueStage::Body;
                IssueStep { notice: None, ask: IssueAsk::Body }
            },
            (IssueStage::Body, IssueEvent::Body(b)) => {
                self.body = b;
                self.stage = IssueStage::Next;
                IssueStep { notice: None, ask: opening(IssueStage::Next) }
            },
            (IssueStage::Next, IssueEvent::Choice(c)) => {
                if str_eq(c.as_str(), "Cancel") {
                    IssueStep { notice: None, ask: IssueAsk::Cancelled }
                } else if str_eq(c.as_str(), "Add metadata") {
                    self.stage = IssueStage::Metadata;
                    IssueStep { notice: None, ask: opening(IssueStage::Metadata) }
                } else {
                    IssueStep { notice: None, ask: IssueAsk::Submit }
                }
            },
            (IssueStage::Metadata, IssueEvent::Metadata(cs)) => {
                self.want_labels = picked(cs.as_slice(), "Labels");
                self.want_assignees = picked(cs.as_slice(), "Assignees");
                self.want_milestone = picked(cs.as_slice(), "Milestone");
                self.stage = self.next_stage(IssueStage::Metadata);
                IssueStep { notice: None, ask: opening(self.stage) }
            },
            (IssueStage::Labels, IssueEvent::Labels(ls)) => {
                self.label_options = options_exec(ls.as_slice());
                if self.label_options.len() == 0 {
                    self.stage = self.next_stage(IssueStage::Labels);
                    IssueStep {
                        notice: Some(string_of(&chars_of("No labels found in this repository."))),
                        ask: opening(self.stage),
                    }
                } else {
                    IssueStep {
                        notice: None,
                        ask: IssueAsk::Labels(names_exec(self.label_options.as_slice())),
                    }
                }
            },
            (IssueStage::Labels, IssueEvent::LabelsChosen(ns)) => {
                let ids = chosen_ids_exec(self.label_options.as_slice(), ns.as_slice());
                let mut all = self.label_ids.clone();
                let ghost start = all@;
                let mut k: usize = 0;
                while k < ids.len()
                    invariant
                        k <= ids@.len(),
                        all@ == start + ids@.take(k as int),
                    decreases ids.len() - k,
                {
                    all.push(ids[k]);
                    assert(all@ =~= start + ids@.take(k + 1));
                    k += 1;
                }
                assert(ids@.take(ids.len() as int) =~= ids@);
                self.label_ids = all;
                self.stage = self.next_stage(IssueStage::Labels);
                IssueStep { notice: None, ask: opening(self.stage) }
            },
            (IssueStage::Assignees, IssueEvent::Assignees(t)) => {
                self.assignees = parse_assignees(t.as_str());
                self.stage = self.next_stage(IssueStage::Assignees);
                IssueStep { notice: None, ask: opening(self.stage) }
            },
            (IssueStage::Milestone, IssueEvent::Milestones(ms)) => {
                let mut refs: Vec<LabelRef> = Vec::new();
                let mut k: usize = 0;
                while k < ms.len()
                    invariant
                        k <= ms@.len(),
                        refs@ =~= ms@.take(k as int).map_values(
                            |m: MilestoneRef| LabelRef { id: m.id, name: m.title },
                        ),
                    decreases ms.len() - k,
                {
                    refs.push(LabelRef { id: ms[k].id, name: ms[k].title.clone() });
                    k += 1;
                }
                assert(ms@.take(ms.len() as int) =~= ms@);
                self.milestone_options = options_exec(refs.as_slice());
                if self.milestone_options.len() == 0 {
                    self.stage = IssueStage::Confirm;
                    IssueStep {
                        notice: Some(string_of(&chars_of("No milestones found in this repository."))),
                        ask: opening(IssueStage::Confirm),
                    }
                } else {
                    IssueStep {
                        notice: None,
                        ask: IssueAsk::Milestone(names_exec(self.milestone_options.as_slice())),
                    }
                }
            },
            (IssueStage::Milestone, IssueEvent::MilestoneChosen(n)) => {
                self.milestone_id = first_option_exec(self.milestone_options.as_slice(), n.as_str());
                self.stage = IssueStage::Confirm;
                IssueStep { notice: None, ask: opening(IssueStage::Confirm) }
            },
            (IssueStage::Confirm, IssueEvent::Choice(c)) => {
                if str_eq(c.as_str(), "Cancel") {
                    IssueStep { notice: None, ask: IssueAsk::Cancelled }
                } else {
                    IssueStep { notice: None, ask: IssueAsk::Submit }
                }
            },
            (s, _) => IssueStep { notice: None, ask: opening(s) },
        }
    }

    /// The stage after `from` for the metadata wanted.
    fn next_stage(&self, from: IssueStage) -> (r: IssueStage)
        ensures
            r == stage_after(*self, from),
    {
        match from {
            IssueStage::Metadata => if self.want_labels {
                IssueStage::Labels
            } else if self.want_assignees {
                IssueStage::Assignees
            } else if self.want_milestone {
                IssueStage::Milestone
            } else {
                IssueStage::Confirm
            },
            IssueStage::Labels => if self.want_assignees {
                IssueStage::Assignees
            } else if self.want_milestone {
                IssueStage::Milestone
            } else {
                IssueStage::Confirm
            },
            IssueStage::Assignees => if self.want_milestone {
                IssueStage::Milestone
            } else {
                IssueStage::Confirm
            },
            _ => IssueStage::Confirm,
        }
    }
}

/// The title prompt refuses a blank title.
pub fn title_ok(t: &str) -> (r: bool)
    ensures
        r == (trim(t@).len() > 0),
{
    trim_exec(&chars_of(t)).len() > 0
}

} // verus!
