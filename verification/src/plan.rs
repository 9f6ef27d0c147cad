//! Plan handling for the apply subsystem: plan-path hygiene and the pure
//! planning of file changes for accepted recommendations.  Reading plan
//! files and writing changes are a collaborator's job; the planner works
//! from materialized facts about the target files.

use crate::error::HarnessError;
use crate::strutil::{ends_with, has_sub, str_contains, str_ends_with, views_of};
use vstd::prelude::*;

verus! {

/// A plan path that would escape the repository: an absolute path or one
/// holding a parent-directory component.
pub open spec fn path_is_absolute(s: Seq<char>) -> bool {
    s.len() > 0 && s[0] == '/'
}

/// Whether a slash-separated path holds a `..` component.
pub open spec fn path_has_parent(s: Seq<char>) -> bool {
    s == ".."@ || (s.len() >= 3 && s.subrange(0, 3) == "../"@) || ends_with(s, "/.."@) || has_sub(
        s,
        "/../"@,
    )
}

/// Rejects plan paths that are absolute or traverse upward, with the
/// offending path named in the error.
pub fn validate_plan_path(path: &str) -> (r: Result<(), HarnessError>)
    ensures
        match r {
            Result::Ok(_) => !path_is_absolute(path@) && !path_has_parent(path@),
            Result::Err(e) => match e {
                HarnessError::ConfigParse(m) => if path_is_absolute(path@) {
                    m@ == "absolute plan path rejected: "@ + path@
                } else {
                    path_has_parent(path@) && m@ == "path traversal rejected: "@ + path@
                },
                _ => false,
            },
        },
{
    let cs = crate::strutil::chars_vec(path);
    let absolute = cs.len() > 0 && cs[0] == '/';
    if absolute {
        let mut m = String::new();
        m.append("absolute plan path rejected: ");
        m.append(path);
        assert(m@ =~= "absolute plan path rejected: "@ + path@);
        return Err(HarnessError::ConfigParse(m));
    }
    let dotdot = crate::strutil::str_eq(path, "..");
    let lead = if cs.len() >= 3 {
        let pre = crate::strutil::string_from_chars(
            &{
                let mut p: Vec<char> = Vec::new();
                p.push(cs[0]);
                p.push(cs[1]);
                p.push(cs[2]);
                proof {
                    assert(p@ =~= path@.subrange(0, 3));
                }
                p
            },
        );
        crate::strutil::str_eq(pre.as_str(), "../")
    } else {
        false
    };
    let tail = str_ends_with(path, "/..");
    let mid = str_contains(path, "/../");
    if dotdot || lead || tail || mid {
        let mut m = String::new();
        m.append("path traversal rejected: ");
        m.append(path);
        assert(m@ =~= "path traversal rejected: "@ + path@);
        return Err(HarnessError::ConfigParse(m));
    }
    Ok(())
}

/// What a planned change does to its file.
#[derive(Clone, Copy, Debug, PartialEq, Eq, Structural)]
pub enum ChangeAction {
    Create,
    Modify,
}

impl ChangeAction {
    /// The rendering of the action.
    pub open spec fn as_str_spec(self) -> Seq<char> {
        match self {
            ChangeAction::Create => "create"@,
            ChangeAction::Modify => "modify"@,
        }
    }

    /// Renders the action.
    pub fn as_str(self) -> (r: &'static str)
        ensures
            r@ == self.as_str_spec(),
    {
        match self {
            ChangeAction::Create => "create",
            ChangeAction::Modify => "modify",
        }
    }
}

/// One planned file change, with its path relative to the repository root.
pub struct PlannedChange {
    pub rel_path: String,
    pub action: ChangeAction,
    pub content: String,
}

/// The ghost shape of a planned change.
pub struct ChangeModel {
    pub rel_path: Seq<char>,
    pub action: ChangeAction,
    pub content: Seq<char>,
}

impl PlannedChange {
    /// The ghost view of this change.
    pub open spec fn model(self) -> ChangeModel {
        ChangeModel { rel_path: self.rel_path@, action: self.action, content: self.content@ }
    }
}

/// The ghost views of a change list.
pub open spec fn change_models(s: Seq<PlannedChange>) -> Seq<ChangeModel> {
    s.map_values(|c: PlannedChange| c.model())
}

/// The template of a fresh context index.
pub open spec fn context_index_template() -> Seq<char> {
    "# Generated by harness\n# Context Index\n\n- AGENTS.md\n"@
}

/// The link line added to the agents map.
pub open spec fn agents_link_line() -> Seq<char> {
    "- Context index: docs/context/INDEX.md"@
}

/// The changes planned for the context-index recommendation: create the
/// index when it is missing, and make the agents map link it, creating the
/// map when it is missing and appending the link when it lacks one.
pub open spec fn context_index_changes(
    index_exists: bool,
    agents_content: Option<Seq<char>>,
) -> Seq<ChangeModel> {
    let index: Seq<ChangeModel> = if !index_exists {
        seq![
            ChangeModel {
                rel_path: "docs/context/INDEX.md"@,
                action: ChangeAction::Create,
                content: context_index_template(),
            },
        ]
    } else {
        Seq::empty()
    };
    let agents: Seq<ChangeModel> = match agents_content {
        Option::Some(existing) => {
            if !has_sub(existing, "docs/context/INDEX.md"@) {
                let base = if ends_with(existing, "\n"@) {
                    existing
                } else {
                    existing + "\n"@
                };
                seq![
                    ChangeModel {
                        rel_path: "AGENTS.md"@,
                        action: ChangeAction::Modify,
                        content: base + agents_link_line() + "\n"@,
                    },
                ]
            } else {
                Seq::empty()
            }
        },
        Option::None => seq![
            ChangeModel {
                rel_path: "AGENTS.md"@,
                action: ChangeAction::Create,
                content: "# Generated by harness\n# Agents\n\n"@ + agents_link_line() + "\n"@,
            },
        ],
    };
    index + agents
}

/// The change planned for the repository-scale recommendation: create the
/// architecture note when it is missing.
pub open spec fn repo_scale_changes(architecture_exists: bool) -> Seq<ChangeModel> {
    if !architecture_exists {
        seq![
            ChangeModel {
                rel_path: "ARCHITECTURE.md"@,
                action: ChangeAction::Create,
                content: "# Generated by harness\n# Architecture\n\n## Overview\n\nTBD.\n"@,
            },
        ]
    } else {
        Seq::empty()
    }
}

/// The changes planned for a recommendation list, walking identifiers in
/// order and honouring each at most once.
pub open spec fn planned_changes(
    ids: Seq<Seq<char>>,
    seen: Seq<Seq<char>>,
    index_exists: bool,
    agents_content: Option<Seq<char>>,
    architecture_exists: bool,
) -> Seq<ChangeModel>
    decreases ids.len(),
{
    if ids.len() == 0 {
        Seq::empty()
    } else {
        let rest = planned_changes(
            ids.skip(1),
            seen.push(ids[0]),
            index_exists,
            agents_content,
            architecture_exists,
        );
        if crate::guardrails::seq_has(seen, ids[0]) {
            planned_changes(ids.skip(1), seen, index_exists, agents_content, architecture_exists)
        } else if ids[0] == "rec.context.index"@ {
            context_index_changes(index_exists, agents_content) + rest
        } else if ids[0] == "rec.repo.scale"@ {
            repo_scale_changes(architecture_exists) + rest
        } else {
            rest
        }
    }
}

/// Plans the file changes for the accepted recommendations, given the
/// materialized facts about the target files: whether the context index
/// and architecture note exist, and the current agents-map content when
/// the file exists.
pub fn build_changes(
    recommendation_ids: &Vec<String>,
    index_exists: bool,
    agents_content: Option<&String>,
    architecture_exists: bool,
) -> (r: Vec<PlannedChange>)
    ensures
        change_models(r@) == planned_changes(
            views_of(recommendation_ids@),
            Seq::empty(),
            index_exists,
            match agents_content {
                Option::Some(s) => Some(s@),
                Option::None => None,
            },
            architecture_exists,
        ),
{
    let ghost agents_view: Option<Seq<char>> = match agents_content {
        Option::Some(s) => Some(s@),
        Option::None => None,
    };
    let mut changes: Vec<PlannedChange> = Vec::new();
    let mut seen: Vec<String> = Vec::new();
    let n = recommendation_ids.len();
    let mut i: usize = 0;
    proof {
        assert(views_of(seen@) =~= Seq::<Seq<char>>::empty());
        assert(views_of(recommendation_ids@).skip(0) =~= views_of(recommendation_ids@));
        assert(change_models(changes@) =~= Seq::<ChangeModel>::empty());
    }
    while i < n
        invariant
            i <= n,
            n == recommendation_ids@.len(),
            agents_view == (match agents_content {
                Option::Some(s) => Some(s@),
                Option::None => None::<Seq<char>>,
            }),
            change_models(changes@) + planned_changes(
                views_of(recommendation_ids@).skip(i as int),
                views_of(seen@),
                index_exists,
                agents_view,
                architecture_exists,
            ) =~= planned_changes(
                views_of(recommendation_ids@),
                Seq::empty(),
                index_exists,
                agents_view,
                architecture_exists,
            ),
        decreases n - i,
    {
        let ghost rest = views_of(recommendation_ids@).skip(i as int);
        proof {
            assert(rest[0] == views_of(recommendation_ids@)[i as int]);
            assert(rest.skip(1) =~= views_of(recommendation_ids@).skip(i + 1));
        }
        let id = &recommendation_ids[i];
        if crate::guardrails::contains_string(&seen, id) {
            i = i + 1;
            continue ;
        }
        let ghost seen_before = views_of(seen@);
        seen.push(id.clone());
        proof {
            assert(views_of(seen@) =~= seen_before.push(rest[0]));
        }
        if crate::strutil::str_eq(id.as_str(), "rec.context.index") {
            if !index_exists {
                let ghost before = change_models(changes@);
                changes.push(
                    PlannedChange {
                        rel_path: "docs/context/INDEX.md".to_owned(),
                        action: ChangeAction::Create,
                        content: "# Generated by harness\n# Context Index\n\n- AGENTS.md\n".to_owned(),
                    },
                );
                proof {
                    assert(change_models(changes@) =~= before.push(
                        ChangeModel {
                            rel_path: "docs/context/INDEX.md"@,
                            action: ChangeAction::Create,
                            content: context_index_template(),
                        },
                    ));
                }
            }
            match agents_content {
                Option::Some(existing) => {
                    if !crate::strutil::str_contains(existing.as_str(), "docs/context/INDEX.md") {
                        let mut updated = String::new();
                        updated.append(existing.as_str());
                        let needs_newline = !crate::strutil::str_ends_with(existing.as_str(), "\n");
                        if needs_newline {
                            updated.append("\n");
                        }
                        updated.append("- Context index: docs/context/INDEX.md");
                        updated.append("\n");
                        proof {
                            let base = if ends_with(existing@, "\n"@) {
                                existing@
                            } else {
                                existing@ + "\n"@
                            };
                            assert(updated@ =~= base + agents_link_line() + "\n"@);
                        }
                        let ghost before = change_models(changes@);
                        changes.push(
                            PlannedChange {
                                rel_path: "AGENTS.md".to_owned(),
                                action: ChangeAction::Modify,
                                content: updated,
                            },
                        );
                        proof {
                            let base = if ends_with(existing@, "\n"@) {
                                existing@
                            } else {
                                existing@ + "\n"@
                            };
                            assert(change_models(changes@) =~= before.push(
                                ChangeModel {
                                    rel_path: "AGENTS.md"@,
                                    action: ChangeAction::Modify,
                                    content: base + agents_link_line() + "\n"@,
                                },
                            ));
                        }
                    }
                },
                Option::None => {
                    let mut content = String::new();
                    content.append("# Generated by harness\n# Agents\n\n");
                    content.append("- Context index: docs/context/INDEX.md");
                    content.append("\n");
                    assert(content@ =~= "# Generated by harness\n# Agents\n\n"@
                        + agents_link_line() + "\n"@);
                    let ghost before = change_models(changes@);
                    changes.push(
                        PlannedChange {
                            rel_path: "AGENTS.md".to_owned(),
                            action: ChangeAction::Create,
                            content,
                        },
                    );
                    proof {
                        assert(change_models(changes@) =~= before.push(
                            ChangeModel {
                                rel_path: "AGENTS.md"@,
                                action: ChangeAction::Create,
                                content: "# Generated by harness\n# Agents\n\n"@
                                    + agents_link_line() + "\n"@,
                            },
                        ));
                    }
                },
            }
        } else if crate::strutil::str_eq(id.as_str(), "rec.repo.scale") {
            if !architecture_exists {
                let ghost before = change_models(changes@);
                changes.push(
                    PlannedChange {
                        rel_path: "ARCHITECTURE.md".to_owned(),
                        action: ChangeAction::Create,
                        content: "# Generated by harness\n# Architecture\n\n## Overview\n\nTBD.\n".to_owned(),
                    },
                );
                proof {
                    assert(change_models(changes@) =~= before.push(
                        ChangeModel {
                            rel_path: "ARCHITECTURE.md"@,
                            action: ChangeAction::Create,
                            content: "# Generated by harness\n# Architecture\n\n## Overview\n\nTBD.\n"@,
                        },
                    ));
                }
            }
        }
        i = i + 1;
    }
    proof {
        assert(planned_changes(
            views_of(recommendation_ids@).skip(n as int),
            views_of(seen@),
            index_exists,
            agents_view,
            architecture_exists,
        ) =~= Seq::<ChangeModel>::empty());
        assert(change_models(changes@) =~= planned_changes(
            views_of(recommendation_ids@),
            Seq::empty(),
            index_exists,
            agents_view,
            architecture_exists,
        ));
    }
    changes
}

} // verus!
