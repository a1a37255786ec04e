use vstd::prelude::*;

use crate::error::{ConfigError, Error};
use crate::json::opt_view;
use crate::text::{
    contains_text, decimal, decimal_string, join_strings, join_with, lemma_contains_text_append,
    lemma_contains_text_prepend, lemma_join_with_contains, owned, strings_view,
};

verus! {

broadcast use vstd::string::group_string_axioms;

/// The workspace ids among `ids` that are not empty, in order.
pub open spec fn visible_ids(ids: Seq<Seq<char>>) -> Seq<Seq<char>>
    decreases ids.len(),
{
    if ids.len() == 0 {
        Seq::empty()
    } else if ids.last().len() > 0 {
        visible_ids(ids.drop_last()).push(ids.last())
    } else {
        visible_ids(ids.drop_last())
    }
}

pub open spec fn no_grants_message() -> Seq<char> {
    "this credential has no visible workspace grants; mint a key from the Console or pass `workspace` explicitly"@
}

/// The message for a credential that reaches several workspaces: it names
/// them all and points at `workspace` / `INFOLANG_WORKSPACE`.
pub open spec fn many_grants_message(ids: Seq<Seq<char>>) -> Seq<char> {
    "this credential can reach "@ + decimal(ids.len()) + " workspaces ("@ + join_with(ids, ", "@)
        + "); pass `workspace` (or set INFOLANG_WORKSPACE) to pick one"@
}

/// What a whoami answer resolves to: the single visible workspace, or the
/// configuration error.
pub open spec fn whoami_resolution(ids: Seq<Seq<char>>) -> Result<Seq<char>, Seq<char>> {
    let visible = visible_ids(ids);
    if visible.len() == 1 {
        Ok(visible[0])
    } else if visible.len() == 0 {
        Err(no_grants_message())
    } else {
        Err(many_grants_message(visible))
    }
}

/// State of workspace resolution for one client: the explicitly configured
/// workspace, and the id a whoami answer resolved (failures are never kept).
#[derive(Debug, Clone, PartialEq)]
pub struct WorkspaceResolver {
    pub explicit: Option<String>,
    pub resolved: Option<String>,
}

/// The mathematical value of a [`WorkspaceResolver`].
pub struct ResolverV {
    pub explicit: Option<Seq<char>>,
    pub resolved: Option<Seq<char>>,
}

impl View for WorkspaceResolver {
    type V = ResolverV;

    open spec fn view(&self) -> ResolverV {
        ResolverV { explicit: opt_view(self.explicit), resolved: opt_view(self.resolved) }
    }
}

/// What a client must do to learn its workspace id.
#[derive(Debug, Clone, PartialEq)]
pub enum WorkspaceStep {
    /// The id is known.
    Ready(String),
    /// Ask `GET /v2/whoami` and hand the answer to [`WorkspaceResolver::on_whoami`].
    AskWhoami,
}

/// The id known without asking: the explicit workspace wins, then a
/// resolved one.
pub open spec fn known_workspace(s: ResolverV) -> Option<Seq<char>> {
    if s.explicit is Some {
        s.explicit
    } else {
        s.resolved
    }
}

/// The state after a whoami answer listing `ids`: a successful resolution is
/// kept, a failed one leaves the state as it was.
pub open spec fn after_whoami(s: ResolverV, ids: Seq<Seq<char>>) -> ResolverV {
    match whoami_resolution(ids) {
        Ok(id) => ResolverV { explicit: s.explicit, resolved: Some(id) },
        Err(_) => s,
    }
}

pub open spec fn step_view(step: WorkspaceStep) -> Option<Seq<char>> {
    match step {
        WorkspaceStep::Ready(w) => Some(w@),
        WorkspaceStep::AskWhoami => None,
    }
}

fn visible_workspace_ids(ids: &Vec<String>) -> (r: Vec<String>)
    ensures
        strings_view(r@) == visible_ids(strings_view(ids@)),
{
    let mut out: Vec<String> = Vec::new();
    let mut i: usize = 0;
    proof {
        assert(strings_view(ids@.take(0)) =~= Seq::<Seq<char>>::empty());
        assert(strings_view(out@) =~= Seq::<Seq<char>>::empty());
    }
    while i < ids.len()
        invariant
            i <= ids.len(),
            strings_view(out@) == visible_ids(strings_view(ids@.take(i as int))),
        decreases ids.len() - i,
    {
        proof {
            let next = strings_view(ids@.take(i + 1));
            assert(next.drop_last() =~= strings_view(ids@.take(i as int)));
            assert(next.last() == ids@[i as int]@);
        }
        let ghost before = strings_view(out@);
        if !ids[i].as_str().is_empty() {
            out.push(ids[i].clone());
            proof {
                assert(strings_view(out@) =~= before.push(ids@[i as int]@));
            }
        }
        i = i + 1;
    }
    proof {
        assert(ids@.take(ids.len() as int) =~= ids@);
    }
    out
}

impl WorkspaceResolver {
    pub fn new(explicit: Option<String>) -> (r: Self)
        ensures
            r@.explicit == opt_view(explicit),
            r@.resolved is None,
    {
        WorkspaceResolver { explicit, resolved: None }
    }

    /// The workspace id, when it is known without a whoami call.
    pub fn next_step(&self) -> (r: WorkspaceStep)
        ensures
            step_view(r) == known_workspace(self@),
    {
        if let Some(ws) = &self.explicit {
            return WorkspaceStep::Ready(ws.clone());
        }
        match &self.resolved {
            Some(ws) => WorkspaceStep::Ready(ws.clone()),
            None => WorkspaceStep::AskWhoami,
        }
    }

    /// Takes the workspace ids a whoami answer lists. Exactly one non-empty
    /// id resolves (and is kept); none or several is a configuration error
    /// (and nothing is kept).
    pub fn on_whoami(&mut self, workspace_ids: &Vec<String>) -> (r: Result<String, Error>)
        ensures
            final(self)@ == after_whoami(old(self)@, strings_view(workspace_ids@)),
            match r {
                Ok(id) => whoami_resolution(strings_view(workspace_ids@)) == Ok::<_, Seq<char>>(
                    id@,
                ),
                Err(e) => e matches Error::Config(c) && whoami_resolution(
                    strings_view(workspace_ids@),
                ) == Err::<Seq<char>, _>(c.message@),
            },
    {
        let ids = visible_workspace_ids(workspace_ids);
        if ids.len() == 1 {
            let id = ids[0].clone();
            self.resolved = Some(ids[0].clone());
            Ok(id)
        } else if ids.len() == 0 {
            Err(
                Error::Config(
                    ConfigError {
                        message: owned(
                            "this credential has no visible workspace grants; mint a key from the Console or pass `workspace` explicitly",
                        ),
                    },
                ),
            )
        } else {
            let mut message = owned("this credential can reach ");
            let count = decimal_string(ids.len() as u64);
            message.append(count.as_str());
            message.append(" workspaces (");
            let listed = join_strings(&ids, ", ");
            message.append(listed.as_str());
            message.append("); pass `workspace` (or set INFOLANG_WORKSPACE) to pick one");
            Err(Error::Config(ConfigError { message }))
        }
    }
}

/// An explicitly configured workspace is always the answer; whoami is never asked.
pub proof fn law_explicit_workspace_wins(s: ResolverV, ids: Seq<Seq<char>>)
    requires
        s.explicit is Some,
    ensures
        known_workspace(s) == s.explicit,
        known_workspace(after_whoami(s, ids)) == s.explicit,
{
}

/// A successful resolution is cached: afterwards the id is known without
/// asking again, and no later answer changes it while it is known.
pub proof fn law_resolution_cached(s: ResolverV, ids: Seq<Seq<char>>)
    requires
        s.explicit is None,
        whoami_resolution(ids) is Ok,
    ensures
        known_workspace(after_whoami(s, ids)) == Some(whoami_resolution(ids)->Ok_0),
{
}

/// A failed resolution is not cached: the state is unchanged, so the next
/// call asks whoami again.
pub proof fn law_failed_resolution_not_cached(s: ResolverV, ids: Seq<Seq<char>>)
    requires
        whoami_resolution(ids) is Err,
    ensures
        after_whoami(s, ids) == s,
        known_workspace(s) is None ==> known_workspace(after_whoami(s, ids)) is None,
{
}

/// Whoami resolves exactly when one non-empty workspace id is listed.
pub proof fn law_single_grant_resolves(ids: Seq<Seq<char>>)
    ensures
        whoami_resolution(ids) is Ok <==> visible_ids(ids).len() == 1,
{
}

/// When a whoami answer lists several workspaces, resolution fails with a
/// message that names every one of them and points at `INFOLANG_WORKSPACE`;
/// when it lists none, the message says there are no visible grants.
pub proof fn law_unresolved_workspace_message(ids: Seq<Seq<char>>)
    ensures
        visible_ids(ids).len() == 0 ==> (whoami_resolution(ids) matches Err(m) && contains_text(
            m,
            "no visible workspace grants"@,
        )),
        visible_ids(ids).len() > 1 ==> (whoami_resolution(ids) matches Err(m) && contains_text(
            m,
            "INFOLANG_WORKSPACE"@,
        ) && forall|k: int|
            0 <= k < visible_ids(ids).len() ==> contains_text(m, #[trigger] visible_ids(ids)[k])),
{
    let visible = visible_ids(ids);
    let needle = "no visible workspace grants"@;
    let key = "INFOLANG_WORKSPACE"@;
    let head = "this credential can reach "@;
    let mid = " workspaces ("@;
    let tail = "); pass `workspace` (or set INFOLANG_WORKSPACE) to pick one"@;
    reveal_strlit("no visible workspace grants");
    reveal_strlit(
        "this credential has no visible workspace grants; mint a key from the Console or pass `workspace` explicitly",
    );
    reveal_strlit("INFOLANG_WORKSPACE");
    reveal_strlit("); pass `workspace` (or set INFOLANG_WORKSPACE) to pick one");
    if visible.len() == 0 {
        let m = no_grants_message();
        assert(m.subrange(20, 20 + needle.len() as int) =~= needle);
    }
    if visible.len() > 1 {
        let m = many_grants_message(visible);
        let front = head + decimal(visible.len()) + mid;
        assert(tail.subrange(28, 28 + key.len() as int) =~= key);
        assert(contains_text(tail, key));
        lemma_contains_text_prepend(front + join_with(visible, ", "@), tail, key);
        assert forall|k: int| 0 <= k < visible.len() implies contains_text(
            m,
            #[trigger] visible[k],
        ) by {
            lemma_join_with_contains(visible, ", "@, k);
            lemma_contains_text_prepend(front, join_with(visible, ", "@), visible[k]);
            lemma_contains_text_append(front + join_with(visible, ", "@), tail, visible[k]);
        }
    }
}

} // verus!
