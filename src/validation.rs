//! Validation of JSON payloads against registered schemas. Decoding the JSON
//! and comparing its numbers with the (floating-point) bounds happen where the
//! payload is read; what each field's observed value amounts to, and which
//! errors the payload earns, is decided here.
use vstd::prelude::*;

verus! {

/// The primitive field types.
#[derive(Debug, Clone, Copy, PartialEq, Eq, Structural)]
pub enum PrimitiveType {
    Number,
    String,
    Boolean,
}

/// An enumeration of string variants.
#[derive(Debug, Clone)]
pub struct EnumType {
    pub variants: Vec<String>,
}

/// The type a field declares, at the granularity that is checked: primitive
/// types are checked, complex ones (enumerations, arrays, nested schemas) are
/// accepted as they are.
#[derive(Debug, Clone, Copy, PartialEq, Eq, Structural)]
pub enum DeclaredType {
    Primitive(PrimitiveType),
    Complex,
}

/// What a payload holds under a field's name.
#[derive(Debug, Clone, Copy, PartialEq, Eq, Structural)]
pub enum Observed {
    Absent,
    Null,
    Bool,
    /// A number, with the outcome of its comparisons against the field's
    /// bounds: below the minimum, above the maximum.
    Number { below_min: bool, above_max: bool },
    /// A string of `len` bytes.
    Text { len: usize },
    /// An array or an object.
    Other,
}

/// A field's declaration, as far as the checks read it.
#[derive(Debug, Clone)]
pub struct FieldRule {
    pub name: String,
    pub field_type: DeclaredType,
    /// Whether the field has constraints at all.
    pub constrained: bool,
    pub required: bool,
    pub min_length: Option<i32>,
    pub max_length: Option<i32>,
}

/// What a field fails with. Numeric errors carry the name only: the numbers are
/// attached where they were compared.
#[derive(Debug, Clone, PartialEq)]
pub enum FieldIssue {
    MissingField(String),
    InvalidType(String),
    MinValue(String),
    MaxValue(String),
    MinLength(String, usize, i32),
    MaxLength(String, usize, i32),
}

/// The kinds of issue, with their numbers, as mathematical values.
pub enum IssueView {
    MissingField(Seq<char>),
    InvalidType(Seq<char>),
    MinValue(Seq<char>),
    MaxValue(Seq<char>),
    MinLength(Seq<char>, usize, i32),
    MaxLength(Seq<char>, usize, i32),
}

impl View for FieldIssue {
    type V = IssueView;

    open spec fn view(&self) -> IssueView {
        match self {
            FieldIssue::MissingField(n) => IssueView::MissingField(n@),
            FieldIssue::InvalidType(n) => IssueView::InvalidType(n@),
            FieldIssue::MinValue(n) => IssueView::MinValue(n@),
            FieldIssue::MaxValue(n) => IssueView::MaxValue(n@),
            FieldIssue::MinLength(n, l, m) => IssueView::MinLength(n@, *l, *m),
            FieldIssue::MaxLength(n, l, m) => IssueView::MaxLength(n@, *l, *m),
        }
    }
}

pub open spec fn issues_view(v: Seq<FieldIssue>) -> Seq<IssueView> {
    v.map_values(|i: FieldIssue| i@)
}

/// Whether an observed value has the declared primitive type.
pub open spec fn type_matches(t: PrimitiveType, o: Observed) -> bool {
    match t {
        PrimitiveType::Number => o is Number,
        PrimitiveType::String => o is Text,
        PrimitiveType::Boolean => o is Bool,
    }
}

/// The issues of one field, in order: a missing required field is the only
/// issue; an absent or null optional field has none; else the type check, then
/// each bound, none of them stopping the others.
pub open spec fn field_issues(rule: FieldRule, o: Observed) -> Seq<IssueView> {
    let n = rule.name@;
    if o is Absent || o is Null {
        if rule.constrained && rule.required {
            seq![IssueView::MissingField(n)]
        } else {
            Seq::empty()
        }
    } else {
        let type_issue = match rule.field_type {
            DeclaredType::Primitive(t) => if type_matches(t, o) {
                Seq::empty()
            } else {
                seq![IssueView::InvalidType(n)]
            },
            DeclaredType::Complex => Seq::empty(),
        };
        let value_issues = if rule.constrained {
            match o {
                Observed::Number { below_min, above_max } => (if below_min {
                    seq![IssueView::MinValue(n)]
                } else {
                    Seq::empty()
                }) + (if above_max {
                    seq![IssueView::MaxValue(n)]
                } else {
                    Seq::empty()
                }),
                Observed::Text { len } => (match rule.min_length {
                    Some(m) => if (len as int) < (m as int) {
                        seq![IssueView::MinLength(n, len, m)]
                    } else {
                        Seq::empty()
                    },
                    None => Seq::empty(),
                }) + (match rule.max_length {
                    Some(m) => if (len as int) > (m as int) {
                        seq![IssueView::MaxLength(n, len, m)]
                    } else {
                        Seq::empty()
                    },
                    None => Seq::empty(),
                }),
                _ => Seq::empty(),
            }
        } else {
            Seq::empty()
        };
        type_issue + value_issues
    }
}

/// The issues of the fields, field after field.
pub open spec fn all_issues(rules: Seq<FieldRule>, obs: Seq<Observed>) -> Seq<IssueView>
    decreases rules.len(),
{
    if rules.len() == 0 || obs.len() == 0 {
        Seq::empty()
    } else {
        all_issues(rules.drop_last(), obs.drop_last()) + field_issues(rules.last(), obs.last())
    }
}

/// Appends the issues of one field.
pub fn check_field(rule: &FieldRule, o: Observed, out: &mut Vec<FieldIssue>)
    ensures
        issues_view(final(out)@) == issues_view(old(out)@) + field_issues(*rule, o),
{
    let ghost start = issues_view(out@);
    let n = &rule.name;
    match o {
        Observed::Absent | Observed::Null => {
            if rule.constrained && rule.required {
                out.push(FieldIssue::MissingField(n.clone()));
            }
            assert(issues_view(out@) =~= start + field_issues(*rule, o));
            return;
        },
        _ => {},
    }
    match rule.field_type {
        DeclaredType::Primitive(t) => {
            let ok = match t {
                PrimitiveType::Number => matches!(o, Observed::Number { .. }),
                PrimitiveType::String => matches!(o, Observed::Text { .. }),
                PrimitiveType::Boolean => matches!(o, Observed::Bool),
            };
            if !ok {
                out.push(FieldIssue::InvalidType(n.clone()));
            }
        },
        DeclaredType::Complex => {},
    }
    let ghost mid = issues_view(out@);
    if rule.constrained {
        match o {
            Observed::Number { below_min, above_max } => {
                if below_min {
                    out.push(FieldIssue::MinValue(n.clone()));
                }
                if above_max {
                    out.push(FieldIssue::MaxValue(n.clone()));
                }
            },
            Observed::Text { len } => {
                match rule.min_length {
                    Some(m) => {
                        if (len as i128) < (m as i128) {
                            out.push(FieldIssue::MinLength(n.clone(), len, m));
                        }
                    },
                    None => {},
                }
                match rule.max_length {
                    Some(m) => {
                        if (len as i128) > (m as i128) {
                            out.push(FieldIssue::MaxLength(n.clone(), len, m));
                        }
                    },
                    None => {},
                }
            },
            _ => {},
        }
    }
    assert(issues_view(out@) =~= start + field_issues(*rule, o));
}

/// The issues that a payload's observed values earn against the declared
/// fields: `Ok` when there are none, else all of them, not just the first.
pub fn validate_fields(rules: &Vec<FieldRule>, observed: &Vec<Observed>) -> (r: Result<(), Vec<FieldIssue>>)
    requires
        rules@.len() == observed@.len(),
    ensures
        all_issues(rules@, observed@).len() == 0 ==> r is Ok,
        all_issues(rules@, observed@).len() > 0 ==> (r matches Err(v) && issues_view(v@) == all_issues(
            rules@,
            observed@,
        )),
{
    let mut out: Vec<FieldIssue> = Vec::new();
    let mut i: usize = 0;
    while i < rules.len()
        invariant
            rules@.len() == observed@.len(),
            i <= rules@.len(),
            issues_view(out@) == all_issues(rules@.subrange(0, i as int), observed@.subrange(0, i as int)),
        decreases rules@.len() - i,
    {
        check_field(&rules[i], observed[i], &mut out);
        proof {
            let r2 = rules@.subrange(0, i + 1);
            let o2 = observed@.subrange(0, i + 1);
            assert(r2.drop_last() =~= rules@.subrange(0, i as int));
            assert(o2.drop_last() =~= observed@.subrange(0, i as int));
            assert(r2.last() == rules@[i as int]);
            assert(o2.last() == observed@[i as int]);
        }
        i = i + 1;
    }
    assert(rules@.subrange(0, rules@.len() as int) =~= rules@);
    assert(observed@.subrange(0, observed@.len() as int) =~= observed@);
    if out.len() == 0 {
        Ok(())
    } else {
        Err(out)
    }
}

/// Whether an event is persisted after validation. Under the soft-fail policy
/// (`enforce` false) every event is; under the strict one, only valid events.
pub fn admits(enforce: bool, valid: bool) -> (r: bool)
    ensures
        r == (!enforce || valid),
{
    !enforce || valid
}

} // verus!
