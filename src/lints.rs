//! Lint settings: per tool, per lint, a level or a level with a priority.

use vstd::prelude::*;

use crate::inherit::{bool_no_false, WORKSPACE_FALSE};
use crate::value::{lookup, shape_error, str_eq, table_get, value_error, ConfigValue, DecodeError};

verus! {

/// How a lint is reported.
#[derive(Debug, Clone, Copy, PartialEq, Eq, Structural)]
pub enum TomlLintLevel {
    Forbid,
    Deny,
    Warn,
    Allow,
}

/// A lint level with a priority.
#[derive(Debug, Clone, Copy, PartialEq, Eq, Structural)]
pub struct TomlLintConfig {
    pub level: TomlLintLevel,
    pub priority: i8,
}

/// One lint's setting: a bare level, or a level with a priority.
#[derive(Debug, Clone, Copy, PartialEq, Eq, Structural)]
pub enum TomlLint {
    Level(TomlLintLevel),
    Config(TomlLintConfig),
}

/// The level that a name denotes, if any.
pub open spec fn lint_level_of(s: Seq<char>) -> Option<TomlLintLevel> {
    if s == "forbid"@ {
        Some(TomlLintLevel::Forbid)
    } else if s == "deny"@ {
        Some(TomlLintLevel::Deny)
    } else if s == "warn"@ {
        Some(TomlLintLevel::Warn)
    } else if s == "allow"@ {
        Some(TomlLintLevel::Allow)
    } else {
        None
    }
}

/// The setting that a node denotes, if any: a level name, or a table with a
/// `level` and an optional `priority` (other keys are not read).
pub open spec fn lint_of(v: ConfigValue) -> Option<TomlLint> {
    match v {
        ConfigValue::Str(s) => match lint_level_of(s@) {
            Some(l) => Some(TomlLint::Level(l)),
            None => None,
        },
        ConfigValue::Table(t) => match lookup(t@, "level"@) {
            Some(ConfigValue::Str(s)) => match lint_level_of(s@) {
                Some(l) => match lookup(t@, "priority"@) {
                    None => Some(TomlLint::Config(TomlLintConfig { level: l, priority: 0 })),
                    Some(ConfigValue::Int(p)) => if i8::MIN <= p <= i8::MAX {
                        Some(TomlLint::Config(TomlLintConfig { level: l, priority: p as i8 }))
                    } else {
                        None
                    },
                    Some(_) => None,
                },
                None => None,
            },
            _ => None,
        },
        _ => None,
    }
}

impl TomlLintLevel {
    /// Decodes a level from its name.
    pub fn from_name(s: &str) -> (r: Option<TomlLintLevel>)
        ensures
            r == lint_level_of(s@),
    {
        proof {
            reveal_strlit("forbid");
            reveal_strlit("deny");
            reveal_strlit("warn");
            reveal_strlit("allow");
        }
        if str_eq(s, "forbid") {
            Some(TomlLintLevel::Forbid)
        } else if str_eq(s, "deny") {
            Some(TomlLintLevel::Deny)
        } else if str_eq(s, "warn") {
            Some(TomlLintLevel::Warn)
        } else if str_eq(s, "allow") {
            Some(TomlLintLevel::Allow)
        } else {
            None
        }
    }
}

impl TomlLint {
    /// The level, in either form.
    pub fn level(&self) -> (r: TomlLintLevel)
        ensures
            r == match *self {
                TomlLint::Level(l) => l,
                TomlLint::Config(c) => c.level,
            },
    {
        match self {
            TomlLint::Level(level) => *level,
            TomlLint::Config(config) => config.level,
        }
    }

    /// The priority; a bare level has priority 0.
    pub fn priority(&self) -> (r: i8)
        ensures
            r == match *self {
                TomlLint::Level(_) => 0,
                TomlLint::Config(c) => c.priority,
            },
    {
        match self {
            TomlLint::Level(_) => 0,
            TomlLint::Config(config) => config.priority,
        }
    }

    /// Decodes a setting from a level name or a `{ level, priority }` table.
    pub fn decode(v: &ConfigValue) -> (r: Result<TomlLint, DecodeError>)
        ensures
            r is Ok <==> lint_of(*v) is Some,
            r is Ok ==> r->Ok_0 == lint_of(*v)->0,
            !(v is Str || v is Table) ==> r matches Err(DecodeError::ShapeMismatch(_)),
    {
        proof {
            reveal_strlit("level");
            reveal_strlit("priority");
        }
        let expecting = "a lint level or a table with `level` and `priority`";
        match v {
            ConfigValue::Str(s) => match TomlLintLevel::from_name(s.as_str()) {
                Some(l) => Ok(TomlLint::Level(l)),
                None => Err(value_error(expecting)),
            },
            ConfigValue::Table(t) => {
                let level = match table_get(t, "level") {
                    Some(ConfigValue::Str(s)) => match TomlLintLevel::from_name(s.as_str()) {
                        Some(l) => l,
                        None => return Err(value_error(expecting)),
                    },
                    _ => return Err(shape_error(expecting)),
                };
                let priority: i8 = match table_get(t, "priority") {
                    None => 0,
                    Some(ConfigValue::Int(p)) => {
                        if -128 <= *p && *p <= 127 {
                            *p as i8
                        } else {
                            return Err(value_error("a priority from -128 to 127"));
                        }
                    },
                    Some(_) => return Err(shape_error("a priority from -128 to 127")),
                };
                Ok(TomlLint::Config(TomlLintConfig { level, priority }))
            },
            _ => Err(shape_error(expecting)),
        }
    }
}

/// The lint settings of one tool, in document order.
pub type TomlToolLints = Vec<(String, TomlLint)>;

/// The lint settings of every tool, in document order.
pub type TomlLints = Vec<(String, TomlToolLints)>;

/// A lints table: its own settings, or `workspace = true` to take the workspace's.
#[derive(Debug, Clone, PartialEq)]
pub struct InheritableLints {
    pub workspace: bool,
    pub lints: TomlLints,
}

/// Whether a flag is off; an unset workspace flag is not written.
pub fn is_false(b: &bool) -> (r: bool)
    ensures
        r == !*b,
{
    !*b
}

/// Every value of a tool's table is a lint setting.
pub open spec fn tool_lints_ok(t: Seq<(String, ConfigValue)>) -> bool {
    forall|i: int| 0 <= i < t.len() ==> lint_of(#[trigger] t[i].1) is Some
}

/// The settings `s` are those of the tool table `v`, entry by entry.
pub open spec fn tool_lints_of(s: Seq<(String, TomlLint)>, v: ConfigValue) -> bool {
    v matches ConfigValue::Table(t) && s.len() == t@.len() && forall|i: int|
        0 <= i < s.len() ==> #[trigger] s[i] == (t@[i].0, lint_of(t@[i].1)->0)
}

/// Decodes the lint settings of one tool.
fn decode_tool_lints(t: &Vec<(String, ConfigValue)>) -> (r: Result<TomlToolLints, DecodeError>)
    ensures
        r is Ok <==> tool_lints_ok(t@),
        r is Ok ==> r->Ok_0@.len() == t@.len() && forall|i: int|
            0 <= i < t@.len() ==> #[trigger] r->Ok_0@[i] == (t@[i].0, lint_of(t@[i].1)->0),
{
    let mut out: TomlToolLints = Vec::new();
    let mut i: usize = 0;
    while i < t.len()
        invariant
            0 <= i <= t@.len(),
            out@.len() == i,
            forall|j: int| 0 <= j < i ==> lint_of(#[trigger] t@[j].1) is Some && out@[j] == (t@[j].0, lint_of(t@[j].1)->0),
        decreases t@.len() - i,
    {
        match TomlLint::decode(&t[i].1) {
            Ok(l) => out.push((t[i].0.clone(), l)),
            Err(e) => {
                assert(!tool_lints_ok(t@));
                return Err(e);
            },
        }
        i = i + 1;
    }
    Ok(out)
}

/// A lints table whose every entry is well shaped: `workspace`, where
/// given, is `true`, and every other entry is a table of lint settings.
pub open spec fn lints_table_ok(t: Seq<(String, ConfigValue)>) -> bool {
    (lookup(t, "workspace"@) is None || lookup(t, "workspace"@) == Some(ConfigValue::Bool(true)))
        && forall|i: int|
        0 <= i < t.len() && t[i].0@ != "workspace"@ ==> (#[trigger] t[i].1 matches ConfigValue::Table(
            tool,
        ) && tool_lints_ok(tool@))
}

/// The entries of a lints table other than `workspace`, in order.
pub open spec fn tool_entries(t: Seq<(String, ConfigValue)>) -> Seq<(String, ConfigValue)> {
    t.filter(|e: (String, ConfigValue)| e.0@ != "workspace"@)
}

/// The settings `s` are those of the tool entries `ne`, entry by entry.
pub open spec fn lints_of(s: Seq<(String, TomlToolLints)>, ne: Seq<(String, ConfigValue)>) -> bool {
    s.len() == ne.len() && forall|i: int|
        0 <= i < ne.len() ==> (#[trigger] s[i]).0 == ne[i].0 && tool_lints_of(s[i].1@, ne[i].1)
}

/// The message for a lints table that is not a table of tool tables.
pub const LINTS_EXPECTING: &'static str = "a lints table";

impl InheritableLints {
    /// Decodes a lints table: `workspace` (which must be `true` where
    /// given) and, for every other key in order, the settings of that tool.
    pub fn decode(v: &ConfigValue) -> (r: Result<InheritableLints, DecodeError>)
        ensures
            !(v is Table) ==> (r matches Err(DecodeError::ShapeMismatch(m)) && m@ == LINTS_EXPECTING@),
            v is Table && lookup(v->Table_0@, "workspace"@) == Some(ConfigValue::Bool(false)) ==> (r matches Err(
                DecodeError::InheritanceConflict(m),
            ) && m@ == WORKSPACE_FALSE@),
            r is Ok ==> (r->Ok_0.workspace <==> lookup(v->Table_0@, "workspace"@) is Some),
            r is Ok ==> lints_of(r->Ok_0.lints@, tool_entries(v->Table_0@)),
            v matches ConfigValue::Table(t) && lints_table_ok(t@) ==> r is Ok,
    {
        proof {
            reveal_strlit("workspace");
        }
        match v {
            ConfigValue::Table(t) => {
                let workspace = match table_get(t, "workspace") {
                    Some(w) => bool_no_false(w)?,
                    None => false,
                };
                let ghost pred = |e: (String, ConfigValue)| e.0@ != "workspace"@;
                let mut lints: TomlLints = Vec::new();
                let mut i: usize = 0;
                assert(t@.subrange(0, 0).filter(pred) =~= Seq::<(String, ConfigValue)>::empty()) by {
                    reveal(Seq::filter);
                }
                while i < t.len()
                    invariant
                        *v == ConfigValue::Table(*t),
                        pred == (|e: (String, ConfigValue)| e.0@ != "workspace"@),
                        lookup(t@, "workspace"@) != Some(ConfigValue::Bool(false)),
                        0 <= i <= t@.len(),
                        lints_of(lints@, t@.subrange(0, i as int).filter(pred)),
                    decreases t@.len() - i,
                {
                    let ghost pre = t@.subrange(0, i as int);
                    proof {
                        assert(t@.subrange(0, i + 1) =~= pre.push(t@[i as int]));
                        pre.lemma_filter_push(t@[i as int], pred);
                    }
                    if !str_eq(t[i].0.as_str(), "workspace") {
                        match &t[i].1 {
                            ConfigValue::Table(tool) => {
                                let tl = match decode_tool_lints(tool) {
                                    Ok(tl) => tl,
                                    Err(e) => {
                                        assert(!lints_table_ok(t@));
                                        return Err(e);
                                    },
                                };
                                let ghost old_lints = lints@;
                                lints.push((t[i].0.clone(), tl));
                                proof {
                                    let ne = t@.subrange(0, i + 1).filter(pred);
                                    assert(ne == pre.filter(pred).push(t@[i as int]));
                                    assert forall|k: int| 0 <= k < ne.len() implies (#[trigger] lints@[k]).0
                                        == ne[k].0 && tool_lints_of(lints@[k].1@, ne[k].1) by {
                                        if k < old_lints.len() {
                                            assert(lints@[k] == old_lints[k]);
                                        }
                                    }
                                }
                            },
                            _ => {
                                assert(!lints_table_ok(t@));
                                return Err(shape_error(LINTS_EXPECTING));
                            },
                        }
                    }
                    i = i + 1;
                }
                assert(t@.subrange(0, t@.len() as int) =~= t@);
                Ok(InheritableLints { workspace, lints })
            },
            _ => Err(shape_error(LINTS_EXPECTING)),
        }
    }
}

/// The name of a level.
pub open spec fn lint_level_text(l: TomlLintLevel) -> Seq<char> {
    match l {
        TomlLintLevel::Forbid => "forbid"@,
        TomlLintLevel::Deny => "deny"@,
        TomlLintLevel::Warn => "warn"@,
        TomlLintLevel::Allow => "allow"@,
    }
}

impl TomlLintLevel {
    /// The name of the level.
    pub fn as_str(&self) -> (r: &'static str)
        ensures
            r@ == lint_level_text(*self),
            lint_level_of(r@) == Some(*self),
    {
        proof {
            reveal_strlit("forbid");
            reveal_strlit("deny");
            reveal_strlit("warn");
            reveal_strlit("allow");
            assert("forbid"@.len() == 6 && "deny"@.len() == 4 && "warn"@.len() == 4);
            assert("allow"@.len() == 5 && "deny"@[0] == 'd' && "warn"@[0] == 'w');
        }
        match self {
            TomlLintLevel::Forbid => "forbid",
            TomlLintLevel::Deny => "deny",
            TomlLintLevel::Warn => "warn",
            TomlLintLevel::Allow => "allow",
        }
    }
}

impl TomlLint {
    /// Encodes a bare level as its name, a configured one as a
    /// `{ level, priority }` table; decoding the result gives the setting back.
    pub fn encode(&self) -> (r: ConfigValue)
        ensures
            lint_of(r) == Some(*self),
    {
        proof {
            reveal_strlit("level");
            reveal_strlit("priority");
        }
        match self {
            TomlLint::Level(l) => {
                let name = l.as_str();
                let st = name.to_string();
                assert(st@ == name@);
                ConfigValue::Str(st)
            },
            TomlLint::Config(c) => {
                let name = c.level.as_str();
                let st = name.to_string();
                assert(lint_level_of(st@) == Some(c.level));
                let mut t: Vec<(String, ConfigValue)> = Vec::new();
                t.push(("level".to_string(), ConfigValue::Str(st)));
                t.push(("priority".to_string(), ConfigValue::Int(c.priority as i64)));
                proof {
                    assert(t@.drop_first().drop_first().len() == 0);
                    assert(t@.drop_first()[0] == t@[1]);
                    assert("level"@.len() == 5 && "priority"@.len() == 8);
                    assert(lookup(t@, "level"@) == Some(t@[0].1));
                    assert(t@[0].0@ == "level"@ && t@[1].0@ == "priority"@);
                    assert(t@.drop_first()[0] == t@[1]);
                    assert(lookup(t@.drop_first(), "priority"@) == Some(t@[1].1));
                    assert(lookup(t@, "priority"@) == Some(t@[1].1));
                }
                ConfigValue::Table(t)
            },
        }
    }
}

} // verus!
