//! A pass over every registered work tree.
//!
//! Like a single conversation, a pass is a function of the replies that came so far. It tells on
//! the way what is to be logged.
use crate::flow;
use crate::flow::GitCommand;
use crate::registry;
use crate::registry::Registry;
use crate::state;
use crate::state::{FileAction, FileOp};
use vstd::prelude::*;

verus! {

/// Where a pass stands. `log` is what the pass has logged so far, in order: the caller writes
/// what is new in it before going on, and does not stop where that fails.
#[derive(Debug, PartialEq, Eq)]
pub enum PassStep<S> {
    /// Run a command in the directory `repo`.
    Git { log: Vec<FileAction>, repo: String, command: GitCommand },
    /// The pass is over. Where there is a registry to save, it replaces the one on disk.
    Done { log: Vec<FileAction>, summary: S, save: Option<Registry> },
}

/// The model of a [`PassStep`].
pub enum PassFlow<V> {
    Git { log: Seq<FileOp>, repo: Seq<char>, command: flow::Command },
    Done {
        log: Seq<FileOp>,
        summary: V,
        save: Option<Map<Seq<char>, registry::EntryView>>,
    },
}

/// The contents of a registry that is to be saved, if there is one.
pub open spec fn saved(save: Option<Registry>) -> Option<Map<Seq<char>, registry::EntryView>> {
    match save {
        Some(registry) => Some(registry@),
        None => None,
    }
}

impl<S: DeepView> View for PassStep<S> {
    type V = PassFlow<S::V>;

    open spec fn view(&self) -> PassFlow<S::V> {
        match self {
            PassStep::Git { log, repo, command } => PassFlow::Git {
                log: state::ops(log@),
                repo: repo@,
                command: command@,
            },
            PassStep::Done { log, summary, save } => PassFlow::Done {
                log: state::ops(log@),
                summary: summary.deep_view(),
                save: saved(*save),
            },
        }
    }
}

impl<V> PassFlow<V> {
    /// What the pass has logged so far.
    pub open spec fn logged(self) -> Seq<FileOp> {
        match self {
            PassFlow::Git { log, .. } => log,
            PassFlow::Done { log, .. } => log,
        }
    }
}

/// What a visit to one work tree comes to: the record, what the registry holds afterwards, and
/// what is logged.
pub struct Visit<V> {
    pub record: V,
    pub known: Map<Seq<char>, registry::EntryView>,
    pub log: Seq<FileOp>,
}

/// How far a pass has come: the records, what the registry holds, and what was logged.
pub struct Progress<V> {
    pub records: Seq<(Seq<char>, V)>,
    pub known: Map<Seq<char>, registry::EntryView>,
    pub log: Seq<FileOp>,
}

impl<V> Progress<V> {
    /// The pass after one more visit.
    pub open spec fn visited(self, path: Seq<char>, visit: Visit<V>) -> Progress<V> {
        Progress {
            records: self.records.push((path, visit.record)),
            known: visit.known,
            log: self.log + visit.log,
        }
    }
}

/// How many of the records meet a condition.
pub open spec fn how_many<V>(list: Seq<(Seq<char>, V)>, counts: spec_fn(V) -> bool) -> nat
    decreases list.len(),
{
    if list.len() == 0 {
        0
    } else {
        how_many(list.drop_last(), counts) + if counts(list.last().1) {
            1nat
        } else {
            0nat
        }
    }
}

pub(crate) proof fn lemma_how_many_at_most<V>(
    list: Seq<(Seq<char>, V)>,
    counts: spec_fn(V) -> bool,
)
    ensures
        how_many(list, counts) <= list.len(),
    decreases list.len(),
{
    if list.len() > 0 {
        lemma_how_many_at_most(list.drop_last(), counts);
    }
}

/// Appends the actions of one visit to the log of a pass.
pub fn log_more(log: &mut Vec<FileAction>, more: Vec<FileAction>)
    ensures
        state::ops(final(log)@) == state::ops(old(log)@) + state::ops(more@),
{
    let mut rest = more;
    let ghost first = log@;
    let ghost second = rest@;
    log.append(&mut rest);
    proof {
        assert(state::ops(log@) =~= state::ops(first) + state::ops(second));
    }
}

} // verus!
