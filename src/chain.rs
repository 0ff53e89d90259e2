//! A chain of command steps, driven one command at a time.
//!
//! The chain never starts a process itself. [`CommandChain::next_command`]
//! walks the pending items, applying result processors on the way, and hands
//! out the text of the next command to run; [`CommandChain::record`] takes
//! back what running it came to and decides whether the chain goes on.
//! [`CommandChain::execute`] does both in turn for a whole pass, with a
//! runner that the caller supplies.
use vstd::prelude::*;
use vstd::string::*;
use crate::command::{ExecError, Outcome, Result, ResultModel, outcome_view};
use crate::text::{
    has_prefix, join_with, joined, lines_of, replace_all, replace_text, starts_with, text_lines,
    text_words, trim_text, trimmed, views, words_of,
};

verus! {

/// The command text that a keyed lookup puts in place of its template when
/// the value it looks for is not in the prior output.
pub const MISSING_VALUE_COMMAND: &'static str = "--will fail--";

/// How a templated command's text is computed from the prior result.
pub enum Mapping {
    /// Replaces each `token` in the template with the prior stdout.
    Stdout { token: String },
    /// Replaces each `token` with the prior stdout, trimmed of white space.
    TrimmedStdout { token: String },
    /// Replaces each `token` with the lines of the prior stdout, joined by
    /// `separator`.
    Lines { token: String, separator: String },
    /// Replaces each `token` with the second word of the first stdout line
    /// that starts with `key`. Where there is no such line, or it has fewer
    /// than two words, the command becomes [`MISSING_VALUE_COMMAND`].
    KeyedValue { token: String, key: String },
}

pub ghost enum MappingModel {
    Stdout { token: Seq<char> },
    TrimmedStdout { token: Seq<char> },
    Lines { token: Seq<char>, separator: Seq<char> },
    KeyedValue { token: Seq<char>, key: Seq<char> },
}

impl View for Mapping {
    type V = MappingModel;

    open spec fn view(&self) -> MappingModel {
        match self {
            Mapping::Stdout { token } => MappingModel::Stdout { token: token@ },
            Mapping::TrimmedStdout { token } => MappingModel::TrimmedStdout { token: token@ },
            Mapping::Lines { token, separator } => MappingModel::Lines {
                token: token@,
                separator: separator@,
            },
            Mapping::KeyedValue { token, key } => MappingModel::KeyedValue {
                token: token@,
                key: key@,
            },
        }
    }
}

/// How a result processor rewrites the current result.
pub enum Processor {
    /// Appends `suffix` to stdout.
    AppendStdout { suffix: String },
    /// Trims white space from both ends of stdout.
    TrimStdout,
}

pub ghost enum ProcessorModel {
    AppendStdout { suffix: Seq<char> },
    TrimStdout,
}

impl View for Processor {
    type V = ProcessorModel;

    open spec fn view(&self) -> ProcessorModel {
        match self {
            Processor::AppendStdout { suffix } => ProcessorModel::AppendStdout { suffix: suffix@ },
            Processor::TrimStdout => ProcessorModel::TrimStdout,
        }
    }
}

/// One step of a chain.
pub enum Item {
    /// A command whose failure halts the chain.
    FatalCommand(String),
    /// A command whose failure is recorded and the chain goes on.
    NonFatalCommand(String),
    /// A command computed from the prior result by the mapping from a
    /// template; the flag says whether its failure halts the chain.
    ResultMappedCommand(Mapping, String, bool),
    /// Replaces the current result without running anything.
    ResultProcessor(Processor),
}

pub ghost enum ItemModel {
    FatalCommand(Seq<char>),
    NonFatalCommand(Seq<char>),
    ResultMappedCommand(MappingModel, Seq<char>, bool),
    ResultProcessor(ProcessorModel),
}

impl View for Item {
    type V = ItemModel;

    open spec fn view(&self) -> ItemModel {
        match self {
            Item::FatalCommand(t) => ItemModel::FatalCommand(t@),
            Item::NonFatalCommand(t) => ItemModel::NonFatalCommand(t@),
            Item::ResultMappedCommand(m, t, f) => ItemModel::ResultMappedCommand(m@, t@, *f),
            Item::ResultProcessor(p) => ItemModel::ResultProcessor(p@),
        }
    }
}

/// `template` with `token` replaced by `value`; an empty token replaces
/// nothing.
pub open spec fn substitute(template: Seq<char>, token: Seq<char>, value: Seq<char>) -> Seq<char> {
    if token.len() == 0 {
        template
    } else {
        replace_all(template, token, value)
    }
}

/// `i` is the index of the first line that starts with `key`.
pub open spec fn is_first_keyed(lines: Seq<Seq<char>>, key: Seq<char>, i: int) -> bool {
    0 <= i < lines.len() && has_prefix(lines[i], key) && forall|j: int|
        0 <= j < i ==> !has_prefix(#[trigger] lines[j], key)
}

/// The second word of the first line that starts with `key`, if there is
/// such a line and it has two words.
pub open spec fn keyed_value(lines: Seq<Seq<char>>, key: Seq<char>) -> Option<Seq<char>> {
    if exists|i: int| is_first_keyed(lines, key, i) {
        let i = choose|i: int| is_first_keyed(lines, key, i);
        if words_of(lines[i]).len() >= 2 {
            Some(words_of(lines[i])[1])
        } else {
            None
        }
    } else {
        None
    }
}

/// The command text that mapping `m` makes of `template` after `prior`.
pub open spec fn mapped_command(m: MappingModel, prior: ResultModel, template: Seq<char>) -> Seq<char> {
    match m {
        MappingModel::Stdout { token } => substitute(template, token, prior.stdout),
        MappingModel::TrimmedStdout { token } => substitute(template, token, trimmed(prior.stdout)),
        MappingModel::Lines { token, separator } => substitute(
            template,
            token,
            joined(lines_of(prior.stdout), separator),
        ),
        MappingModel::KeyedValue { token, key } => match keyed_value(lines_of(prior.stdout), key) {
            Some(v) => substitute(template, token, v),
            None => MISSING_VALUE_COMMAND@,
        },
    }
}

/// The result that processor `p` makes of `r`.
pub open spec fn processed(p: ProcessorModel, r: ResultModel) -> ResultModel {
    ResultModel {
        exit_code: r.exit_code,
        success: r.success,
        stdout: match p {
            ProcessorModel::AppendStdout { suffix } => r.stdout + suffix,
            ProcessorModel::TrimStdout => trimmed(r.stdout),
        },
        stderr: r.stderr,
    }
}

/// Replaces `token` in `template` by `value`; an empty token replaces
/// nothing.
fn substitute_text(template: &str, token: &str, value: &str) -> (r: String)
    ensures
        r@ == substitute(template@, token@, value@),
{
    if token.unicode_len() == 0 {
        template.to_owned()
    } else {
        replace_text(template, token, value)
    }
}

/// The second word of the first line of `lines` that starts with `key`.
pub fn find_keyed_value(lines: &Vec<String>, key: &str) -> (r: Option<String>)
    ensures
        opt_view(r) == keyed_value(views(lines@), key@),
{
    let ghost ls = views(lines@);
    let mut i: usize = 0;
    while i < lines.len()
        invariant
            ls == views(lines@),
            i <= lines.len(),
            forall|j: int| 0 <= j < i ==> !has_prefix(#[trigger] ls[j], key@),
        decreases lines.len() - i,
    {
        if starts_with(lines[i].as_str(), key) {
            assert(is_first_keyed(ls, key@, i as int));
            let ghost c = choose|c: int| is_first_keyed(ls, key@, c);
            assert(c == i) by {
                if c < i {
                    assert(!has_prefix(ls[c], key@));
                } else if c > i {
                    assert(!has_prefix(ls[i as int], key@));
                }
            }
            let words = text_words(lines[i].as_str());
            if words.len() >= 2 {
                assert(views(words@)[1] == words@[1]@);
                return Some(words[1].clone());
            } else {
                return None;
            }
        }
        i = i + 1;
    }
    assert forall|c: int| !is_first_keyed(ls, key@, c) by {
        if 0 <= c < ls.len() {
            assert(!has_prefix(ls[c], key@));
        }
    }
    None
}

/// The view of an optional string.
pub open spec fn opt_view(s: Option<String>) -> Option<Seq<char>> {
    match s {
        Some(t) => Some(t@),
        None => None,
    }
}

/// The command text that `m` makes of `template` after `prior`.
pub fn map_command(m: &Mapping, prior: &Result, template: &str) -> (r: String)
    ensures
        r@ == mapped_command(m@, prior@, template@),
{
    match m {
        Mapping::Stdout { token } => substitute_text(template, token.as_str(), prior.stdout.as_str()),
        Mapping::TrimmedStdout { token } => {
            let t = trim_text(prior.stdout.as_str());
            substitute_text(template, token.as_str(), t.as_str())
        },
        Mapping::Lines { token, separator } => {
            let lines = text_lines(prior.stdout.as_str());
            let j = join_with(&lines, separator.as_str());
            substitute_text(template, token.as_str(), j.as_str())
        },
        Mapping::KeyedValue { token, key } => {
            let lines = text_lines(prior.stdout.as_str());
            match find_keyed_value(&lines, key.as_str()) {
                Some(v) => substitute_text(template, token.as_str(), v.as_str()),
                None => MISSING_VALUE_COMMAND.to_owned(),
            }
        },
    }
}

/// The result that `p` makes of `r`.
pub fn process_result(p: &Processor, r: &Result) -> (out: Result)
    ensures
        out@ == processed(p@, r@),
{
    let stdout = match p {
        Processor::AppendStdout { suffix } => {
            let mut s = r.stdout.clone();
            s.append(suffix.as_str());
            s
        },
        Processor::TrimStdout => trim_text(r.stdout.as_str()),
    };
    Result { exit_code: r.exit_code, success: r.success, stdout, stderr: r.stderr.clone() }
}

/// The command that `item` asks to run after `cur`, with whether its failure
/// halts the chain; `None` for a result processor. A templated command with
/// no prior result runs its template as it stands.
pub open spec fn command_of(item: ItemModel, cur: Option<ResultModel>) -> Option<(Seq<char>, bool)> {
    match item {
        ItemModel::FatalCommand(t) => Some((t, true)),
        ItemModel::NonFatalCommand(t) => Some((t, false)),
        ItemModel::ResultMappedCommand(m, t, f) => Some(
            (
                match cur {
                    Some(r) => mapped_command(m, r, t),
                    None => t,
                },
                f,
            ),
        ),
        ItemModel::ResultProcessor(_) => None,
    }
}

/// The current result after `item` where `item` runs nothing: a processor
/// rewrites a result that is there, and leaves an absent one absent.
pub open spec fn after_processor(item: ItemModel, cur: Option<ResultModel>) -> Option<ResultModel> {
    match (item, cur) {
        (ItemModel::ResultProcessor(p), Some(r)) => Some(processed(p, r)),
        _ => cur,
    }
}

/// Walks `items` from index `i` with current result `cur` through the
/// processors up to the next command: the index after that command, the
/// current result then, and the command with its halting flag (`None` at the
/// end of the items).
pub open spec fn advance(items: Seq<ItemModel>, i: nat, cur: Option<ResultModel>) -> (
    nat,
    Option<ResultModel>,
    Option<(Seq<char>, bool)>,
)
    decreases items.len() - i,
{
    if i >= items.len() {
        (i, cur, None)
    } else {
        match command_of(items[i as int], cur) {
            Some(c) => ((i + 1) as nat, cur, Some(c)),
            None => advance(items, (i + 1) as nat, after_processor(items[i as int], cur)),
        }
    }
}

/// `advance` moves forward, stops inside the items, and past a command.
proof fn lemma_advance_bounds(items: Seq<ItemModel>, i: nat, cur: Option<ResultModel>)
    requires
        i <= items.len(),
    ensures
        i <= advance(items, i, cur).0 <= items.len(),
        advance(items, i, cur).2 is Some ==> i < advance(items, i, cur).0,
        advance(items, i, cur).2 is None ==> advance(items, i, cur).0 == items.len(),
    decreases items.len() - i,
{
    if i < items.len() && command_of(items[i as int], cur) is None {
        lemma_advance_bounds(items, (i + 1) as nat, after_processor(items[i as int], cur));
    }
}

/// An ordered list of steps, the most recent result, and how far a pass over
/// the steps has come.
pub struct CommandChain {
    /// The steps, in the order they run.
    pub commands: Vec<Item>,
    /// The most recent result; `None` until a command has run.
    pub result: Option<Result>,
    /// The index of the next step to take.
    pub next: usize,
    /// While a handed-out command waits for its outcome: whether its failure
    /// halts the chain.
    pub awaiting: Option<bool>,
    /// Set once a fatal failure or a fault has stopped the pass.
    pub halted: bool,
    /// The fault of the environment that stopped the pass, if one did.
    pub fault: Option<ExecError>,
}

/// The mathematical value of a [`CommandChain`].
pub ghost struct ChainModel {
    pub items: Seq<ItemModel>,
    pub result: Option<ResultModel>,
    pub next: nat,
    pub awaiting: Option<bool>,
    pub halted: bool,
    pub fault: Option<ExecError>,
}

pub open spec fn opt_result_view(r: Option<Result>) -> Option<ResultModel> {
    match r {
        Some(x) => Some(x@),
        None => None,
    }
}

impl View for CommandChain {
    type V = ChainModel;

    open spec fn view(&self) -> ChainModel {
        ChainModel {
            items: self.commands@.map_values(|i: Item| i@),
            result: opt_result_view(self.result),
            next: self.next as nat,
            awaiting: self.awaiting,
            halted: self.halted,
            fault: self.fault,
        }
    }
}

impl ChainModel {
    pub open spec fn wf(self) -> bool {
        &&& self.next <= self.items.len()
        &&& self.awaiting is Some ==> !self.halted
        &&& self.fault is Some ==> self.halted
    }

    /// A chain of `items` that has not run yet.
    pub open spec fn fresh(items: Seq<ItemModel>) -> ChainModel {
        ChainModel { items, result: None, next: 0, awaiting: None, halted: false, fault: None }
    }

    /// This chain with `item` appended.
    pub open spec fn pushed(self, item: ItemModel) -> ChainModel {
        ChainModel { items: self.items.push(item), ..self }
    }

    /// The chain after asking for the next command, and that command's text:
    /// `None` once the pass has ended or halted.
    pub open spec fn next_step(self) -> (ChainModel, Option<Seq<char>>) {
        if self.halted {
            (self, None)
        } else {
            let (j, cur, c) = advance(self.items, self.next, self.result);
            match c {
                Some((t, f)) => (ChainModel { next: j, result: cur, awaiting: Some(f), ..self }, Some(t)),
                None => (ChainModel { next: j, result: cur, ..self }, None),
            }
        }
    }

    /// The chain after the outcome `o` of the command it waited on: a result
    /// becomes the current one and halts the chain where the command was fatal
    /// and failed; a fault halts it and leaves the current result as it was.
    pub open spec fn recorded(self, o: std::result::Result<ResultModel, ExecError>) -> ChainModel {
        match o {
            Ok(r) => ChainModel {
                result: Some(r),
                awaiting: None,
                halted: self.awaiting == Some(true) && !r.success,
                ..self
            },
            Err(e) => ChainModel { awaiting: None, halted: true, fault: Some(e), ..self },
        }
    }

    /// The chain after a pass in which the commands handed out came to
    /// `outs`, in order: each command is followed by its outcome, until the
    /// pass ends or the outcomes run out.
    pub open spec fn driven(self, outs: Seq<std::result::Result<ResultModel, ExecError>>) -> ChainModel
        decreases outs.len(),
    {
        let (s, c) = self.next_step();
        if c is None || outs.len() == 0 {
            s
        } else {
            s.recorded(outs[0]).driven(outs.drop_first())
        }
    }

    /// The commands handed out in that pass, in order.
    pub open spec fn issued(self, outs: Seq<std::result::Result<ResultModel, ExecError>>) -> Seq<Seq<char>>
        decreases outs.len(),
    {
        let (s, c) = self.next_step();
        match c {
            None => Seq::empty(),
            Some(t) => if outs.len() == 0 {
                seq![t]
            } else {
                seq![t] + s.recorded(outs[0]).issued(outs.drop_first())
            },
        }
    }
}

impl CommandChain {
    pub open spec fn wf(&self) -> bool {
        self@.wf()
    }

    /// An empty chain.
    pub fn new() -> (r: Self)
        ensures
            r@ == ChainModel::fresh(Seq::empty()),
            r.wf(),
    {
        let c = CommandChain {
            commands: Vec::new(),
            result: None,
            next: 0,
            awaiting: None,
            halted: false,
            fault: None,
        };
        assert(c@.items =~= Seq::<ItemModel>::empty());
        c
    }

    fn push(self, item: Item) -> (r: Self)
        ensures
            r@ == self@.pushed(item@),
    {
        let mut c = self;
        c.commands.push(item);
        assert(c@.items =~= self@.items.push(item@));
        c
    }

    /// Appends a result processor.
    pub fn result_proc(self, f: Processor) -> (r: Self)
        ensures
            r@ == self@.pushed(ItemModel::ResultProcessor(f@)),
    {
        self.push(Item::ResultProcessor(f))
    }

    /// Appends a templated command whose failure halts the chain.
    pub fn result_mapped_cmd(self, f: Mapping, command_string: &str) -> (r: Self)
        ensures
            r@ == self@.pushed(ItemModel::ResultMappedCommand(f@, command_string@, true)),
    {
        self.push(Item::ResultMappedCommand(f, command_string.to_owned(), true))
    }

    /// Appends a templated command whose failure does not halt the chain.
    pub fn result_mapped_cmd_nonfatal(self, f: Mapping, command_string: &str) -> (r: Self)
        ensures
            r@ == self@.pushed(ItemModel::ResultMappedCommand(f@, command_string@, false)),
    {
        self.push(Item::ResultMappedCommand(f, command_string.to_owned(), false))
    }

    /// Appends a command whose failure halts the chain.
    pub fn cmd(self, command_string: &str) -> (r: Self)
        ensures
            r@ == self@.pushed(ItemModel::FatalCommand(command_string@)),
    {
        self.push(Item::FatalCommand(command_string.to_owned()))
    }

    /// Appends a command whose failure does not halt the chain.
    pub fn cmd_nonfatal(self, command_string: &str) -> (r: Self)
        ensures
            r@ == self@.pushed(ItemModel::NonFatalCommand(command_string@)),
    {
        self.push(Item::NonFatalCommand(command_string.to_owned()))
    }

    /// Takes the pending steps up to the next command and hands out its
    /// text; `None` once the pass has ended or halted. Result processors on
    /// the way rewrite the current result (or leave an absent one absent),
    /// and a templated command gets its text from the current result.
    pub fn next_command(&mut self) -> (r: Option<String>)
        requires
            old(self).wf(),
            old(self).awaiting is None,
        ensures
            final(self).wf(),
            (final(self)@, opt_view(r)) == old(self)@.next_step(),
    {
        if self.halted {
            return None;
        }
        let ghost items = self@.items;
        let ghost target = old(self)@.next_step();
        while self.next < self.commands.len()
            invariant
                self.wf(),
                !self.halted,
                self.awaiting is None,
                self@.items == items,
                self.fault == old(self).fault,
                advance(items, self@.next, self@.result) == advance(
                    items,
                    old(self)@.next,
                    old(self)@.result,
                ),
                target == old(self)@.next_step(),
                !old(self).halted,
                old(self)@.items == items,
            decreases self.commands.len() - self.next,
        {
            let i = self.next;
            assert(items[i as int] == self.commands@[i as int]@);
            match &self.commands[i] {
                Item::FatalCommand(t) => {
                    let text = t.clone();
                    self.next = i + 1;
                    self.awaiting = Some(true);
                    return Some(text);
                },
                Item::NonFatalCommand(t) => {
                    let text = t.clone();
                    self.next = i + 1;
                    self.awaiting = Some(false);
                    return Some(text);
                },
                Item::ResultMappedCommand(m, t, f) => {
                    let text = match &self.result {
                        Some(res) => map_command(m, res, t.as_str()),
                        None => t.clone(),
                    };
                    let fatal = *f;
                    self.next = i + 1;
                    self.awaiting = Some(fatal);
                    return Some(text);
                },
                Item::ResultProcessor(p) => {
                    let nr = match &self.result {
                        Some(res) => Some(process_result(p, res)),
                        None => None,
                    };
                    self.result = nr;
                    self.next = i + 1;
                },
            }
        }
        None
    }

    /// Takes the outcome of the command handed out last. A result becomes
    /// the current one and halts the chain where that command was fatal and
    /// failed; a fault halts the chain and is kept, the current result left
    /// as it was.
    pub fn record(&mut self, outcome: Outcome)
        requires
            old(self).wf(),
            old(self).awaiting is Some,
        ensures
            final(self).wf(),
            final(self)@ == old(self)@.recorded(outcome_view(outcome)),
    {
        let fatal = match self.awaiting {
            Some(f) => f,
            None => true,
        };
        self.awaiting = None;
        match outcome {
            Ok(r) => {
                self.halted = fatal && !r.success;
                self.result = Some(r);
            },
            Err(e) => {
                self.halted = true;
                self.fault = Some(e);
            },
        }
    }

    /// Runs one pass: hands each command in turn to `run` and records what
    /// it returns, until the pass ends or halts. The chain is then as
    /// [`ChainModel::driven`] says for the outcomes that `run` gave, and the
    /// commands handed out were those of [`ChainModel::issued`].
    pub fn execute<F: Fn(String) -> Outcome>(self, run: F) -> (r: Self)
        requires
            self.wf(),
            self.awaiting is None,
            forall|line: String| run.requires((line,)),
        ensures
            r.wf(),
            r.awaiting is None,
            r@.next_step().1 is None,
            exists|lines: Seq<String>, outs: Seq<Outcome>| is_pass(run, self@, lines, outs, r@),
    {
        let ghost start = self@;
        let ghost mut lines: Seq<String> = Seq::empty();
        let ghost mut outs: Seq<Outcome> = Seq::empty();
        let mut chain = self;
        proof {
            assert forall|f: Seq<std::result::Result<ResultModel, ExecError>>|
                #[trigger] start.driven(outcome_views(outs) + f) == chain@.driven(f)
                && start.issued(outcome_views(outs) + f) == views(lines) + chain@.issued(f) by {
                assert(outcome_views(outs) + f =~= f);
                assert(views(lines) + chain@.issued(f) =~= chain@.issued(f));
            }
        }
        loop
            invariant
                chain.wf(),
                chain.awaiting is None,
                start == self@,
                lines.len() == outs.len(),
                forall|k: int| 0 <= k < lines.len() ==> run.ensures((lines[k],), outs[k]),
                forall|line: String| run.requires((line,)),
                forall|f: Seq<std::result::Result<ResultModel, ExecError>>|
                    #[trigger] start.driven(outcome_views(outs) + f) == chain@.driven(f)
                    && start.issued(outcome_views(outs) + f) == views(lines) + chain@.issued(f),
            decreases chain.commands.len() - chain.next + (if chain.halted { 0int } else { 1int }),
        {
            let ghost before = chain@;
            proof {
                lemma_advance_bounds(before.items, before.next, before.result);
            }
            match chain.next_command() {
                None => {
                    proof {
                        let e = Seq::<std::result::Result<ResultModel, ExecError>>::empty();
                        assert(outcome_views(outs) + e =~= outcome_views(outs));
                        assert(start.driven(outcome_views(outs) + e) == before.driven(e));
                        assert(start.issued(outcome_views(outs) + e) == views(lines) + before.issued(e));
                        assert(views(lines) + before.issued(e) =~= views(lines));
                        if !chain.halted {
                            lemma_advance_bounds(chain@.items, chain@.next, chain@.result);
                        }
                        assert(chain@.next_step() == (chain@, None::<Seq<char>>));
                        assert(views(lines) == start.issued(outcome_views(outs)));
                        assert(chain@ == start.driven(outcome_views(outs)));
                        assert(is_pass(run, start, lines, outs, chain@));
                    }
                    return chain;
                },
                Some(line) => {
                    let ghost g = line;
                    let outcome = run(line);
                    let ghost o = outcome;
                    chain.record(outcome);
                    proof {
                        let ov = outcome_view(o);
                        assert forall|f: Seq<std::result::Result<ResultModel, ExecError>>|
                            #[trigger] start.driven(outcome_views(outs.push(o)) + f) == chain@.driven(f)
                            && start.issued(outcome_views(outs.push(o)) + f) == views(lines.push(g))
                                + chain@.issued(f) by {
                            let f1 = seq![ov] + f;
                            assert(outcome_views(outs.push(o)) + f =~= outcome_views(outs) + f1);
                            assert(f1.drop_first() =~= f);
                            assert(start.driven(outcome_views(outs) + f1) == before.driven(f1));
                            assert(start.issued(outcome_views(outs) + f1) == views(lines) + before.issued(f1));
                            assert(before.issued(f1) == seq![g@] + chain@.issued(f));
                            assert(views(lines.push(g)) =~= views(lines).push(g@));
                            assert(views(lines) + (seq![g@] + chain@.issued(f)) =~= views(lines.push(g))
                                + chain@.issued(f));
                        }
                        lines = lines.push(g);
                        outs = outs.push(o);
                    }
                },
            }
        }
    }
}

/// The mathematical values of a list of outcomes.
pub open spec fn outcome_views(outs: Seq<Outcome>) -> Seq<std::result::Result<ResultModel, ExecError>> {
    outs.map_values(|o: Outcome| outcome_view(o))
}

/// A pass from `start` to `end` in which `run` was handed `lines`, in order,
/// and returned `outs`.
pub open spec fn is_pass<F: Fn(String) -> Outcome>(
    run: F,
    start: ChainModel,
    lines: Seq<String>,
    outs: Seq<Outcome>,
    end: ChainModel,
) -> bool {
    &&& lines.len() == outs.len()
    &&& forall|k: int| 0 <= k < lines.len() ==> run.ensures((lines[k],), outs[k])
    &&& views(lines) == start.issued(outcome_views(outs))
    &&& end == start.driven(outcome_views(outs))
}

/// Whether every item is a literal command.
pub open spec fn all_literal_commands(items: Seq<ItemModel>) -> bool {
    forall|i: int|
        0 <= i < items.len() ==> (#[trigger] items[i] is FatalCommand || items[i] is NonFatalCommand)
}

/// Whether every outcome is a well-formed successful result.
pub open spec fn all_succeed(outs: Seq<std::result::Result<ResultModel, ExecError>>) -> bool {
    forall|j: int|
        0 <= j < outs.len() ==> (#[trigger] outs[j] is Ok && outs[j]->Ok_0.success && outs[j]->Ok_0.wf())
}

proof fn lemma_drive_literal_commands(s: ChainModel, outs: Seq<std::result::Result<ResultModel, ExecError>>)
    requires
        s.wf(),
        !s.halted,
        s.awaiting is None,
        s.fault is None,
        all_literal_commands(s.items),
        outs.len() == s.items.len() - s.next,
        all_succeed(outs),
    ensures
        s.driven(outs).result == (if outs.len() == 0 {
            s.result
        } else {
            Some(outs.last()->Ok_0)
        }),
        s.driven(outs).fault is None,
        s.driven(outs).next == s.items.len(),
    decreases outs.len(),
{
    let items = s.items;
    if s.next < items.len() {
        let it = items[s.next as int];
        assert(it is FatalCommand || it is NonFatalCommand);
        let (s1, c) = s.next_step();
        assert(c is Some);
        assert(s1.next == s.next + 1);
        let s2 = s1.recorded(outs[0]);
        assert(outs[0] is Ok);
        let rest = outs.drop_first();
        assert forall|j: int| 0 <= j < rest.len() implies (#[trigger] rest[j] is Ok && rest[j]->Ok_0.success
            && rest[j]->Ok_0.wf()) by {
            assert(rest[j] == outs[j + 1]);
        }
        lemma_drive_literal_commands(s2, rest);
        if rest.len() > 0 {
            assert(rest.last() == outs.last());
        }
    } else {
        assert(s.next_step().1 is None);
    }
}

/// A chain of literal commands, each of which succeeds, ends with the last
/// command's result: a success with exit code zero, and no fault.
pub proof fn lemma_all_commands_succeed(
    items: Seq<ItemModel>,
    outs: Seq<std::result::Result<ResultModel, ExecError>>,
)
    requires
        items.len() > 0,
        all_literal_commands(items),
        outs.len() == items.len(),
        all_succeed(outs),
    ensures
        ChainModel::fresh(items).driven(outs).result == Some(outs.last()->Ok_0),
        ChainModel::fresh(items).driven(outs).result->Some_0.success,
        ChainModel::fresh(items).driven(outs).result->Some_0.exit_code == Some(0i32),
        ChainModel::fresh(items).driven(outs).fault is None,
{
    lemma_drive_literal_commands(ChainModel::fresh(items), outs);
    assert(outs[outs.len() - 1] is Ok);
}

/// Once a fatal command has failed, the chain hands out no further command,
/// whatever outcomes follow.
pub proof fn lemma_fatal_failure_halts(
    s: ChainModel,
    r: ResultModel,
    outs: Seq<std::result::Result<ResultModel, ExecError>>,
)
    requires
        s.wf(),
        s.awaiting == Some(true),
        !r.success,
    ensures
        s.recorded(Ok(r)).halted,
        s.recorded(Ok(r)).result == Some(r),
        s.recorded(Ok(r)).next_step() == (s.recorded(Ok(r)), None::<Seq<char>>),
        s.recorded(Ok(r)).driven(outs) == s.recorded(Ok(r)),
        s.recorded(Ok(r)).issued(outs) == Seq::<Seq<char>>::empty(),
{
}

/// A non-fatal command's failure does not halt the chain: its result becomes
/// the current one and the pass goes on from the next step.
pub proof fn lemma_nonfatal_failure_continues(s: ChainModel, r: ResultModel)
    requires
        s.wf(),
        s.awaiting == Some(false),
    ensures
        !s.recorded(Ok(r)).halted,
        s.recorded(Ok(r)).result == Some(r),
        s.recorded(Ok(r)).next == s.next,
        s.recorded(Ok(r)).fault is None,
{
}

proof fn lemma_advance_processors_only(items: Seq<ItemModel>, i: nat)
    requires
        forall|k: int| 0 <= k < items.len() ==> #[trigger] items[k] is ResultProcessor,
    ensures
        advance(items, i, None).1 is None,
        advance(items, i, None).2 is None,
        advance(items, i, None).0 == (if i >= items.len() { i } else { items.len() }),
    decreases items.len() - i,
{
    if i < items.len() {
        assert(items[i as int] is ResultProcessor);
        lemma_advance_processors_only(items, (i + 1) as nat);
    }
}

/// A chain of result processors alone never runs a command and never has a
/// result: with no prior result each processor is a no-op.
pub proof fn lemma_processors_alone_do_nothing(
    items: Seq<ItemModel>,
    outs: Seq<std::result::Result<ResultModel, ExecError>>,
)
    requires
        forall|k: int| 0 <= k < items.len() ==> #[trigger] items[k] is ResultProcessor,
    ensures
        ChainModel::fresh(items).driven(outs).result is None,
        ChainModel::fresh(items).issued(outs) == Seq::<Seq<char>>::empty(),
{
    lemma_advance_processors_only(items, 0);
}

/// A fault of the environment and a command that ran and failed leave
/// different traces: the fault is kept and the current result stays as it
/// was, while a failed run becomes the current result with no fault.
pub proof fn lemma_fault_classes_distinct(s: ChainModel, e: ExecError, r: ResultModel)
    requires
        s.wf(),
        s.awaiting is Some,
    ensures
        s.recorded(Err(e)).fault == Some(e),
        s.recorded(Err(e)).result == s.result,
        s.recorded(Err(e)).halted,
        s.recorded(Ok(r)).fault is None,
        s.recorded(Ok(r)).result == Some(r),
{
}

/// A pass over a chain is decided by the outcomes its commands get: two
/// complete passes from the same state in which the command at each step got
/// the same outcome whenever it was the same command (as read-only commands
/// do when run again) hand out the same commands and end in the same state.
pub proof fn lemma_same_answers_same_pass(
    s: ChainModel,
    o1: Seq<std::result::Result<ResultModel, ExecError>>,
    o2: Seq<std::result::Result<ResultModel, ExecError>>,
)
    requires
        s.issued(o1).len() == o1.len(),
        s.issued(o2).len() == o2.len(),
        forall|k: int|
            0 <= k < o1.len() && k < o2.len() && #[trigger] s.issued(o1)[k] == s.issued(o2)[k]
                ==> o1[k] == o2[k],
    ensures
        s.issued(o1) == s.issued(o2),
        s.driven(o1) == s.driven(o2),
    decreases o1.len(),
{
    let (s1, c) = s.next_step();
    if let Some(t) = c {
        assert(o1.len() > 0 && o2.len() > 0);
        assert(s.issued(o1)[0] == t && s.issued(o2)[0] == t);
        assert(o1[0] == o2[0]);
        let next = s1.recorded(o1[0]);
        let r1 = o1.drop_first();
        let r2 = o2.drop_first();
        assert(s.issued(o1) == seq![t] + next.issued(r1));
        assert(s.issued(o2) == seq![t] + next.issued(r2));
        assert forall|k: int|
            0 <= k < r1.len() && k < r2.len() && #[trigger] next.issued(r1)[k] == next.issued(r2)[k]
                implies r1[k] == r2[k] by {
            assert(s.issued(o1)[k + 1] == next.issued(r1)[k]);
            assert(s.issued(o2)[k + 1] == next.issued(r2)[k]);
        }
        lemma_same_answers_same_pass(next, r1, r2);
    }
}

} // verus!
