//! Which paths the compiler trims in its outputs.

use vstd::prelude::*;

use crate::value::{shape_error, str_eq, value_error, ConfigValue, DecodeError};

verus! {

/// One kind of output whose paths can be trimmed.
#[derive(Debug, Clone, Copy, PartialEq, Eq, Structural, PartialOrd, Ord, Hash)]
pub enum TomlTrimPathsValue {
    Diagnostics,
    Macro,
    Object,
}

/// A selection of outputs whose paths are trimmed: all of them, or the listed
/// ones. Two selections are equal when they select the same kinds, whatever
/// the order of the list.
#[derive(Debug, Clone, Eq)]
pub enum TomlTrimPaths {
    Values(Vec<TomlTrimPathsValue>),
    All,
}

/// What a selection of trimmed paths holds.
pub enum TrimPathsView {
    Values(Seq<TomlTrimPathsValue>),
    All,
}

impl View for TomlTrimPaths {
    type V = TrimPathsView;

    open spec fn view(&self) -> TrimPathsView {
        match self {
            TomlTrimPaths::Values(v) => TrimPathsView::Values(v@),
            TomlTrimPaths::All => TrimPathsView::All,
        }
    }
}

impl TomlTrimPaths {
    /// A copy that holds the same selection.
    pub fn copy(&self) -> (r: TomlTrimPaths)
        ensures
            r@ == self@,
    {
        match self {
            TomlTrimPaths::Values(v) => {
                let mut r: Vec<TomlTrimPathsValue> = Vec::new();
                let mut i: usize = 0;
                while i < v.len()
                    invariant
                        0 <= i <= v@.len(),
                        r@ == v@.subrange(0, i as int),
                    decreases v@.len() - i,
                {
                    r.push(v[i]);
                    assert(v@.subrange(0, i + 1) == v@.subrange(0, i as int).push(v@[i as int]));
                    i = i + 1;
                }
                assert(v@.subrange(0, v@.len() as int) == v@);
                TomlTrimPaths::Values(r)
            },
            TomlTrimPaths::All => TomlTrimPaths::All,
        }
    }
}

/// The name of an output kind.
pub open spec fn trim_value_text(v: TomlTrimPathsValue) -> Seq<char> {
    match v {
        TomlTrimPathsValue::Diagnostics => "diagnostics"@,
        TomlTrimPathsValue::Macro => "macro"@,
        TomlTrimPathsValue::Object => "object"@,
    }
}

/// The output kind that a name denotes, if any.
pub open spec fn trim_value_of(s: Seq<char>) -> Option<TomlTrimPathsValue> {
    if s == "diagnostics"@ {
        Some(TomlTrimPathsValue::Diagnostics)
    } else if s == "macro"@ {
        Some(TomlTrimPathsValue::Macro)
    } else if s == "object"@ {
        Some(TomlTrimPathsValue::Object)
    } else {
        None
    }
}

/// Every element is the name of an output kind.
pub open spec fn all_trim_names(items: Seq<ConfigValue>) -> bool {
    forall|i: int|
        0 <= i < items.len() ==> (#[trigger] items[i] matches ConfigValue::Str(s) && trim_value_of(
            s@,
        ) is Some)
}

/// The output kinds that a list of names denotes.
pub open spec fn trim_values_of(items: Seq<ConfigValue>) -> Seq<TomlTrimPathsValue> {
    Seq::new(items.len(), |i: int| trim_value_of(items[i]->Str_0@)->0)
}

/// The selection that a node denotes, if any.
pub open spec fn trim_paths_of(v: ConfigValue) -> Option<TrimPathsView> {
    match v {
        ConfigValue::Bool(b) => Some(
            if b {
                TrimPathsView::All
            } else {
                TrimPathsView::Values(Seq::empty())
            },
        ),
        ConfigValue::Str(s) => if s@ == "none"@ {
            Some(TrimPathsView::Values(Seq::empty()))
        } else if s@ == "all"@ {
            Some(TrimPathsView::All)
        } else if trim_value_of(s@) is Some {
            Some(TrimPathsView::Values(seq![trim_value_of(s@)->0]))
        } else {
            None
        },
        ConfigValue::Array(items) => if all_trim_names(items@) {
            Some(TrimPathsView::Values(trim_values_of(items@)))
        } else {
            None
        },
        _ => None,
    }
}

/// The names of the kinds, joined by commas.
pub open spec fn join_trim_names(s: Seq<TomlTrimPathsValue>) -> Seq<char>
    decreases s.len(),
{
    if s.len() == 0 {
        Seq::empty()
    } else if s.len() == 1 {
        trim_value_text(s[0])
    } else {
        join_trim_names(s.drop_last()) + ","@ + trim_value_text(s.last())
    }
}

/// The text of a selection: `all`, `none`, or the kinds joined by commas.
pub open spec fn trim_paths_text(t: TrimPathsView) -> Seq<char> {
    match t {
        TrimPathsView::All => "all"@,
        TrimPathsView::Values(s) => if s.len() == 0 {
            "none"@
        } else {
            join_trim_names(s)
        },
    }
}

/// The accepted shapes of a selection of trimmed paths.
pub const TRIM_PATHS_EXPECTING: &'static str =
    "a boolean, \"none\", \"diagnostics\", \"macro\", \"object\", \"all\", or an array with these options";

impl TomlTrimPathsValue {
    /// The name of the kind.
    pub fn as_str(&self) -> (r: &'static str)
        ensures
            r@ == trim_value_text(*self),
    {
        match self {
            TomlTrimPathsValue::Diagnostics => "diagnostics",
            TomlTrimPathsValue::Macro => "macro",
            TomlTrimPathsValue::Object => "object",
        }
    }

    /// The kind that a name denotes.
    pub fn from_name(s: &str) -> (r: Option<TomlTrimPathsValue>)
        ensures
            r == trim_value_of(s@),
    {
        proof {
            reveal_strlit("diagnostics");
            reveal_strlit("macro");
            reveal_strlit("object");
        }
        if str_eq(s, "diagnostics") {
            Some(TomlTrimPathsValue::Diagnostics)
        } else if str_eq(s, "macro") {
            Some(TomlTrimPathsValue::Macro)
        } else if str_eq(s, "object") {
            Some(TomlTrimPathsValue::Object)
        } else {
            None
        }
    }
}

impl TomlTrimPaths {
    /// The selection that trims nothing.
    pub fn none() -> (r: TomlTrimPaths)
        ensures
            r@ == TrimPathsView::Values(Seq::empty()),
    {
        TomlTrimPaths::Values(Vec::new())
    }

    /// Whether the selection trims nothing.
    pub fn is_none(&self) -> (r: bool)
        ensures
            r == (self@ matches TrimPathsView::Values(s) && s.len() == 0),
    {
        match self {
            TomlTrimPaths::Values(v) => v.len() == 0,
            TomlTrimPaths::All => false,
        }
    }

    /// Decodes a selection from a boolean, a name, or a list of names.
    pub fn decode(v: &ConfigValue) -> (r: Result<TomlTrimPaths, DecodeError>)
        ensures
            r is Ok <==> trim_paths_of(*v) is Some,
            r is Ok ==> r->Ok_0@ == trim_paths_of(*v)->0,
            r is Err ==> (match *v {
                ConfigValue::Str(_) | ConfigValue::Array(_) => (r->Err_0 matches DecodeError::InvalidValue(m)
                    && m@ == TRIM_PATHS_EXPECTING@),
                _ => (r->Err_0 matches DecodeError::ShapeMismatch(m) && m@ == TRIM_PATHS_EXPECTING@),
            }),
    {
        proof {
            reveal_strlit("none");
            reveal_strlit("all");
        }
        match v {
            ConfigValue::Bool(b) => Ok(
                if *b {
                    TomlTrimPaths::All
                } else {
                    TomlTrimPaths::none()
                },
            ),
            ConfigValue::Str(s) => {
                if str_eq(s.as_str(), "none") {
                    Ok(TomlTrimPaths::none())
                } else if str_eq(s.as_str(), "all") {
                    Ok(TomlTrimPaths::All)
                } else {
                    match TomlTrimPathsValue::from_name(s.as_str()) {
                        Some(x) => {
                            let mut r: Vec<TomlTrimPathsValue> = Vec::new();
                            r.push(x);
                            assert(r@ =~= seq![x]);
                            Ok(TomlTrimPaths::Values(r))
                        },
                        None => Err(value_error(TRIM_PATHS_EXPECTING)),
                    }
                }
            },
            ConfigValue::Array(items) => {
                let mut r: Vec<TomlTrimPathsValue> = Vec::new();
                let mut i: usize = 0;
                while i < items.len()
                    invariant
                        *v == ConfigValue::Array(*items),
                        0 <= i <= items@.len(),
                        r@.len() == i,
                        forall|j: int|
                            0 <= j < i ==> (#[trigger] items@[j] matches ConfigValue::Str(s)
                                && trim_value_of(s@) == Some(r@[j])),
                    decreases items@.len() - i,
                {
                    let x = match &items[i] {
                        ConfigValue::Str(s) => TomlTrimPathsValue::from_name(s.as_str()),
                        _ => None,
                    };
                    match x {
                        Some(x) => r.push(x),
                        None => {
                            assert(!all_trim_names(items@));
                            return Err(value_error(TRIM_PATHS_EXPECTING));
                        },
                    }
                    i = i + 1;
                }
                assert(r@ =~= trim_values_of(items@));
                Ok(TomlTrimPaths::Values(r))
            },
            _ => Err(shape_error(TRIM_PATHS_EXPECTING)),
        }
    }

    /// The selection as text: `all`, `none`, or the kinds in order, joined by commas.
    pub fn to_text(&self) -> (r: String)
        ensures
            r@ == trim_paths_text(self@),
    {
        match self {
            TomlTrimPaths::All => "all".to_string(),
            TomlTrimPaths::Values(v) => {
                if v.len() == 0 {
                    "none".to_string()
                } else {
                    let mut r = v[0].as_str().to_string();
                    let mut i: usize = 1;
                    assert(v@.subrange(0, 1).drop_last() =~= Seq::<TomlTrimPathsValue>::empty());
                    while i < v.len()
                        invariant
                            1 <= i <= v@.len(),
                            r@ == join_trim_names(v@.subrange(0, i as int)),
                        decreases v@.len() - i,
                    {
                        let r2 = r.concat(",");
                        r = r2.concat(v[i].as_str());
                        assert(v@.subrange(0, i + 1).drop_last() =~= v@.subrange(0, i as int));
                        i = i + 1;
                    }
                    assert(v@.subrange(0, v@.len() as int) =~= v@);
                    r
                }
            },
        }
    }
}

/// Two selections select the same kinds.
pub open spec fn same_selection(a: TrimPathsView, b: TrimPathsView) -> bool {
    match (a, b) {
        (TrimPathsView::All, TrimPathsView::All) => true,
        (TrimPathsView::Values(x), TrimPathsView::Values(y)) => x.to_set() == y.to_set(),
        _ => false,
    }
}

/// Every kind of `a` is in `b`.
fn all_in(a: &Vec<TomlTrimPathsValue>, b: &Vec<TomlTrimPathsValue>) -> (r: bool)
    ensures
        r == forall|i: int| 0 <= i < a@.len() ==> b@.contains(#[trigger] a@[i]),
{
    let mut i: usize = 0;
    while i < a.len()
        invariant
            0 <= i <= a@.len(),
            forall|k: int| 0 <= k < i ==> b@.contains(#[trigger] a@[k]),
        decreases a@.len() - i,
    {
        let mut found = false;
        let mut j: usize = 0;
        while j < b.len()
            invariant
                0 <= j <= b@.len(),
                0 <= i < a@.len(),
                found <==> exists|k: int| 0 <= k < j && b@[k] == a@[i as int],
            decreases b@.len() - j,
        {
            if b[j] == a[i] {
                found = true;
            }
            j = j + 1;
        }
        if !found {
            assert(!b@.contains(a@[i as int]));
            return false;
        }
        i = i + 1;
    }
    true
}

impl PartialEq for TomlTrimPaths {
    fn eq(&self, other: &TomlTrimPaths) -> (r: bool)
        ensures
            r == same_selection(self@, other@),
    {
        match (self, other) {
            (TomlTrimPaths::All, TomlTrimPaths::All) => true,
            (TomlTrimPaths::Values(x), TomlTrimPaths::Values(y)) => {
                let r = all_in(x, y) && all_in(y, x);
                proof {
                    if r {
                        assert forall|e: TomlTrimPathsValue| x@.to_set().contains(e) == y@.to_set().contains(e) by {
                            if x@.contains(e) {
                                let i = choose|i: int| 0 <= i < x@.len() && x@[i] == e;
                            }
                            if y@.contains(e) {
                                let i = choose|i: int| 0 <= i < y@.len() && y@[i] == e;
                            }
                        }
                        assert(x@.to_set() =~= y@.to_set());
                    } else {
                        if all_in_spec_fails(x@, y@) {
                            let i = choose|i: int| 0 <= i < x@.len() && !y@.contains(#[trigger] x@[i]);
                            assert(x@.to_set().contains(x@[i]));
                            assert(!y@.to_set().contains(x@[i]));
                        } else {
                            let i = choose|i: int| 0 <= i < y@.len() && !x@.contains(#[trigger] y@[i]);
                            assert(y@.to_set().contains(y@[i]));
                            assert(!x@.to_set().contains(y@[i]));
                        }
                    }
                }
                r
            },
            _ => false,
        }
    }
}

/// Some kind of `a` is missing from `b`.
spec fn all_in_spec_fails(a: Seq<TomlTrimPathsValue>, b: Seq<TomlTrimPathsValue>) -> bool {
    exists|i: int| 0 <= i < a.len() && !b.contains(#[trigger] a[i])
}

impl vstd::std_specs::cmp::PartialEqSpecImpl for TomlTrimPaths {
    open spec fn obeys_eq_spec() -> bool {
        true
    }

    open spec fn eq_spec(&self, other: &TomlTrimPaths) -> bool {
        same_selection(self@, other@)
    }
}

impl From<Vec<TomlTrimPathsValue>> for TomlTrimPaths {
    fn from(value: Vec<TomlTrimPathsValue>) -> (r: TomlTrimPaths) {
        TomlTrimPaths::Values(value)
    }
}

impl vstd::std_specs::convert::FromSpecImpl<Vec<TomlTrimPathsValue>> for TomlTrimPaths {
    open spec fn obeys_from_spec() -> bool {
        true
    }

    open spec fn from_spec(v: Vec<TomlTrimPathsValue>) -> TomlTrimPaths {
        TomlTrimPaths::Values(v)
    }
}

impl TomlTrimPaths {
    /// The selection of one kind.
    pub fn of_value(value: TomlTrimPathsValue) -> (r: TomlTrimPaths)
        ensures
            r@ == TrimPathsView::Values(seq![value]),
    {
        let mut v: Vec<TomlTrimPathsValue> = Vec::new();
        v.push(value);
        assert(v@ =~= seq![value]);
        TomlTrimPaths::Values(v)
    }
}

impl TomlTrimPaths {
    /// Encodes the selection: `"all"`, or the list of names in order;
    /// decoding the result gives the same selection back.
    pub fn encode(&self) -> (r: ConfigValue)
        ensures
            trim_paths_of(r) == Some(self@),
    {
        proof {
            reveal_strlit("all");
            reveal_strlit("none");
            assert("all"@.len() == 3 && "none"@.len() == 4);
        }
        match self {
            TomlTrimPaths::All => ConfigValue::Str("all".to_string()),
            TomlTrimPaths::Values(v) => {
                let mut items: Vec<ConfigValue> = Vec::new();
                let mut i: usize = 0;
                while i < v.len()
                    invariant
                        0 <= i <= v@.len(),
                        items@.len() == i,
                        forall|j: int| 0 <= j < i ==> (#[trigger] items@[j] matches ConfigValue::Str(s)
                            && trim_value_of(s@) == Some(v@[j])),
                    decreases v@.len() - i,
                {
                    let name = v[i].as_str();
                    proof {
                        reveal_strlit("diagnostics");
                        reveal_strlit("macro");
                        reveal_strlit("object");
                        assert("diagnostics"@.len() == 11 && "macro"@.len() == 5 && "object"@.len() == 6);
                    }
                    items.push(ConfigValue::Str(name.to_string()));
                    i = i + 1;
                }
                assert(all_trim_names(items@));
                assert(trim_values_of(items@) =~= v@);
                ConfigValue::Array(items)
            },
        }
    }
}

} // verus!
