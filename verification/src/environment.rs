use vstd::prelude::*;
use vstd::hash_map::StringHashMap;

use crate::data_type::DataType;
use crate::token::{Span, Token};

verus! {

/// A value the evaluator computes.
#[derive(Debug)]
#[allow(inconsistent_fields)]
pub enum EvaluatorValue {
    Int { value: i64 },
    /// A floating-point number, held as its IEEE-754 bit pattern.
    Float { bits: u64 },
    String { value: String },
    Boolean { value: bool },
    Null,
}

impl Clone for EvaluatorValue {
    fn clone(&self) -> (res: Self)
        ensures
            res == *self,
    {
        match self {
            EvaluatorValue::Int { value } => EvaluatorValue::Int { value: *value },
            EvaluatorValue::Float { bits } => EvaluatorValue::Float { bits: *bits },
            EvaluatorValue::String { value } => EvaluatorValue::String { value: value.clone() },
            EvaluatorValue::Boolean { value } => EvaluatorValue::Boolean { value: *value },
            EvaluatorValue::Null => EvaluatorValue::Null,
        }
    }
}

/// The type of a value.
pub open spec fn type_of_value(v: EvaluatorValue) -> DataType {
    match v {
        EvaluatorValue::Int { .. } => DataType::Int,
        EvaluatorValue::Float { .. } => DataType::Float,
        EvaluatorValue::String { .. } => DataType::String,
        EvaluatorValue::Boolean { .. } => DataType::Boolean,
        EvaluatorValue::Null => DataType::Null,
    }
}

/// Whether a variable holding `old_value` may be given `new_value`: both are
/// integers, strings, booleans or floats alike.
pub open spec fn same_assignable_kind(new_value: EvaluatorValue, old_value: EvaluatorValue) -> bool {
    ||| new_value is Int && old_value is Int
    ||| new_value is String && old_value is String
    ||| new_value is Boolean && old_value is Boolean
    ||| new_value is Float && old_value is Float
}

impl EvaluatorValue {
    /// Whether a variable holding `self` may be given `new_value`.
    pub fn accepts(&self, new_value: &EvaluatorValue) -> (res: bool)
        ensures
            res == same_assignable_kind(*new_value, *self),
    {
        match (new_value, self) {
            (EvaluatorValue::Int { .. }, EvaluatorValue::Int { .. })
            | (EvaluatorValue::String { .. }, EvaluatorValue::String { .. })
            | (EvaluatorValue::Boolean { .. }, EvaluatorValue::Boolean { .. })
            | (EvaluatorValue::Float { .. }, EvaluatorValue::Float { .. }) => true,
            _ => false,
        }
    }

    pub fn to_data_type(&self) -> (res: DataType)
        ensures
            res == type_of_value(*self),
    {
        match self {
            EvaluatorValue::Int { .. } => DataType::Int,
            EvaluatorValue::Float { .. } => DataType::Float,
            EvaluatorValue::String { .. } => DataType::String,
            EvaluatorValue::Boolean { .. } => DataType::Boolean,
            EvaluatorValue::Null => DataType::Null,
        }
    }
}

/// What the evaluator reports when a variable is misused.
#[derive(Debug)]
pub enum EvaluatorDiagnosticError {
    UndefinedVariable(Token),
    VariableAlreadyDefined(String, DataType),
    InvalidReassignedVariable(Span),
    AssingInvalidType(DataType, DataType, Token),
}

/// A variable's value and whether it may be reassigned.
#[derive(Debug)]
pub struct VariableEnvironment {
    pub values: EvaluatorValue,
    pub is_mutable: bool,
}

impl Clone for VariableEnvironment {
    fn clone(&self) -> (res: Self)
        ensures
            res == *self,
    {
        VariableEnvironment { values: self.values.clone(), is_mutable: self.is_mutable }
    }
}

impl VariableEnvironment {
    pub fn new(values: EvaluatorValue, is_mutable: bool) -> (res: Self)
        ensures
            res.values == values,
            res.is_mutable == is_mutable,
    {
        VariableEnvironment { values, is_mutable }
    }
}

/// One scope: the variables it defines, by name.
pub type Scope = Map<Seq<char>, VariableEnvironment>;

/// A chain of scopes, innermost first.
pub struct Environment {
    pub values: StringHashMap<VariableEnvironment>,
    pub enclosing: Option<Box<Environment>>,
}

/// The scopes of `env`, innermost first.
pub open spec fn scopes_of(env: Environment) -> Seq<Scope>
    decreases env,
{
    match env.enclosing {
        Some(outer) => seq![env.values@] + scopes_of(*outer),
        None => seq![env.values@],
    }
}

impl View for Environment {
    type V = Seq<Scope>;

    open spec fn view(&self) -> Seq<Scope> {
        scopes_of(*self)
    }
}

/// The index of the innermost scope that defines `name`, if any.
pub open spec fn defining_scope(scopes: Seq<Scope>, name: Seq<char>) -> Option<nat>
    decreases scopes.len(),
{
    if scopes.len() == 0 {
        None
    } else if scopes[0].contains_key(name) {
        Some(0)
    } else {
        match defining_scope(scopes.drop_first(), name) {
            Some(i) => Some(i + 1),
            None => None,
        }
    }
}

/// What `name` denotes: its entry in the innermost scope that defines it.
pub open spec fn lookup(scopes: Seq<Scope>, name: Seq<char>) -> Option<VariableEnvironment> {
    match defining_scope(scopes, name) {
        Some(i) => Some(scopes[i as int][name]),
        None => None,
    }
}

/// The scopes after `name` is given `value` in the scope that defines it.
pub open spec fn assigned(scopes: Seq<Scope>, name: Seq<char>, value: VariableEnvironment) -> Seq<Scope> {
    match defining_scope(scopes, name) {
        Some(i) => scopes.update(i as int, scopes[i as int].insert(name, value)),
        None => scopes,
    }
}

/// The scopes after `name` is defined as `value` in the innermost scope.
pub open spec fn defined(scopes: Seq<Scope>, name: Seq<char>, value: VariableEnvironment) -> Seq<Scope> {
    scopes.update(0, scopes[0].insert(name, value))
}

proof fn lemma_defining_scope_bound(scopes: Seq<Scope>, name: Seq<char>)
    ensures
        defining_scope(scopes, name) matches Some(i) ==> i < scopes.len() && scopes[i as int].contains_key(name),
    decreases scopes.len(),
{
    if scopes.len() > 0 && !scopes[0].contains_key(name) {
        lemma_defining_scope_bound(scopes.drop_first(), name);
    }
}

/// `defining_scope` finds the first scope that defines the name.
proof fn lemma_defining_scope_first(scopes: Seq<Scope>, name: Seq<char>)
    ensures
        match defining_scope(scopes, name) {
            Some(i) => {
                &&& i < scopes.len()
                &&& scopes[i as int].contains_key(name)
                &&& forall|j: int| 0 <= j < i ==> !#[trigger] scopes[j].contains_key(name)
            },
            None => forall|j: int| 0 <= j < scopes.len() ==> !#[trigger] scopes[j].contains_key(name),
        },
    decreases scopes.len(),
{
    if scopes.len() > 0 && !scopes[0].contains_key(name) {
        let rest = scopes.drop_first();
        lemma_defining_scope_first(rest, name);
        match defining_scope(rest, name) {
            Some(i) => {
                assert forall|j: int| 0 <= j < i + 1 implies !#[trigger] scopes[j].contains_key(name) by {
                    if j > 0 {
                        assert(scopes[j] == rest[j - 1]);
                    }
                }
            },
            None => {
                assert forall|j: int| 0 <= j < scopes.len() implies !#[trigger] scopes[j].contains_key(name) by {
                    if j > 0 {
                        assert(scopes[j] == rest[j - 1]);
                    }
                }
            },
        }
    }
}

/// Two chains of scopes that define a name in the same scopes give it the
/// same defining scope.
proof fn lemma_defining_scope_same(a: Seq<Scope>, b: Seq<Scope>, name: Seq<char>)
    requires
        a.len() == b.len(),
        forall|j: int| 0 <= j < a.len() ==> #[trigger] a[j].contains_key(name) == b[j].contains_key(name),
    ensures
        defining_scope(a, name) == defining_scope(b, name),
{
    lemma_defining_scope_first(a, name);
    lemma_defining_scope_first(b, name);
    match (defining_scope(a, name), defining_scope(b, name)) {
        (Some(i), Some(j)) => {
            if i < j {
                assert(b[i as int].contains_key(name) == a[i as int].contains_key(name));
            } else if j < i {
                assert(a[j as int].contains_key(name) == b[j as int].contains_key(name));
            }
        },
        (Some(i), None) => {
            assert(b[i as int].contains_key(name) == a[i as int].contains_key(name));
        },
        (None, Some(j)) => {
            assert(a[j as int].contains_key(name) == b[j as int].contains_key(name));
        },
        (None, None) => {},
    }
}

/// A name is undefined exactly when no scope of the chain defines it.
pub proof fn law_undefined_iff_no_scope_defines(scopes: Seq<Scope>, name: Seq<char>)
    ensures
        lookup(scopes, name) is None <==> forall|j: int|
            0 <= j < scopes.len() ==> !#[trigger] scopes[j].contains_key(name),
{
    lemma_defining_scope_first(scopes, name);
}

/// The innermost definition of a name hides every outer one.
pub proof fn law_inner_definition_shadows(scopes: Seq<Scope>, name: Seq<char>, i: int)
    requires
        0 <= i < scopes.len(),
        scopes[i].contains_key(name),
        forall|j: int| 0 <= j < i ==> !#[trigger] scopes[j].contains_key(name),
    ensures
        lookup(scopes, name) == Some(scopes[i][name]),
{
    lemma_defining_scope_first(scopes, name);
    match defining_scope(scopes, name) {
        Some(k) => {
            if k < i {
                assert(!scopes[k as int].contains_key(name));
            } else if i < k {
                assert(!scopes[i].contains_key(name));
            }
        },
        None => {
            assert(!scopes[i].contains_key(name));
        },
    }
}

/// After a name is defined, looking it up gives what was defined.
pub proof fn law_lookup_after_define(scopes: Seq<Scope>, name: Seq<char>, value: VariableEnvironment)
    requires
        scopes.len() > 0,
    ensures
        lookup(defined(scopes, name, value), name) == Some(value),
{
    let after = defined(scopes, name, value);
    assert(after[0].contains_key(name));
    assert(defining_scope(after, name) == Some(0nat));
}

/// Defining a name leaves what every other name denotes unchanged.
pub proof fn law_define_keeps_other_names(
    scopes: Seq<Scope>,
    name: Seq<char>,
    value: VariableEnvironment,
    other: Seq<char>,
)
    requires
        scopes.len() > 0,
        other != name,
    ensures
        lookup(defined(scopes, name, value), other) == lookup(scopes, other),
{
    let after = defined(scopes, name, value);
    assert forall|j: int| 0 <= j < scopes.len() implies #[trigger] after[j].contains_key(other)
        == scopes[j].contains_key(other) by {
        if j == 0 {
            assert(after[0] == scopes[0].insert(name, value));
        }
    }
    lemma_defining_scope_same(after, scopes, other);
    lemma_defining_scope_first(scopes, other);
    match defining_scope(scopes, other) {
        Some(i) => {
            if i == 0 {
                assert(after[0] == scopes[0].insert(name, value));
            }
        },
        None => {},
    }
}

/// After a name is assigned, looking it up gives what was assigned.
pub proof fn law_lookup_after_assign(scopes: Seq<Scope>, name: Seq<char>, value: VariableEnvironment)
    requires
        lookup(scopes, name) is Some,
    ensures
        lookup(assigned(scopes, name, value), name) == Some(value),
        assigned(scopes, name, value).len() == scopes.len(),
{
    let after = assigned(scopes, name, value);
    lemma_defining_scope_first(scopes, name);
    let i = defining_scope(scopes, name)->Some_0;
    assert forall|j: int| 0 <= j < scopes.len() implies #[trigger] after[j].contains_key(name)
        == scopes[j].contains_key(name) by {
        if j == i {
            assert(after[j] == scopes[j].insert(name, value));
        }
    }
    lemma_defining_scope_same(after, scopes, name);
}

/// Assigning a name leaves what every other name denotes unchanged.
pub proof fn law_assign_keeps_other_names(
    scopes: Seq<Scope>,
    name: Seq<char>,
    value: VariableEnvironment,
    other: Seq<char>,
)
    requires
        other != name,
    ensures
        lookup(assigned(scopes, name, value), other) == lookup(scopes, other),
{
    let after = assigned(scopes, name, value);
    lemma_defining_scope_first(scopes, name);
    match defining_scope(scopes, name) {
        Some(i) => {
            assert forall|j: int| 0 <= j < scopes.len() implies #[trigger] after[j].contains_key(other)
                == scopes[j].contains_key(other) by {
                if j == i {
                    assert(after[j] == scopes[j].insert(name, value));
                }
            }
            lemma_defining_scope_same(after, scopes, other);
            lemma_defining_scope_first(scopes, other);
            match defining_scope(scopes, other) {
                Some(k) => {
                    if k == i {
                        assert(after[k as int] == scopes[k as int].insert(name, value));
                    }
                },
                None => {},
            }
        },
        None => {},
    }
}

/// A variable may be given a new value exactly when the new value has the
/// same type as the one it holds and that type is not `Null`.
pub proof fn law_assignable_iff_same_type(new_value: EvaluatorValue, old_value: EvaluatorValue)
    ensures
        same_assignable_kind(new_value, old_value) <==> (type_of_value(new_value) == type_of_value(
            old_value,
        ) && !(old_value is Null)),
{
}

/// Assigning a mutable variable a value of the same (non-`Null`) type as
/// the one it holds is accepted, and the name then denotes the new value.
pub proof fn law_same_type_assignment_succeeds(
    scopes: Seq<Scope>,
    name: Seq<char>,
    value: VariableEnvironment,
)
    requires
        lookup(scopes, name) is Some,
        lookup(scopes, name)->Some_0.is_mutable,
        type_of_value(value.values) == type_of_value(lookup(scopes, name)->Some_0.values),
        !(value.values is Null),
    ensures
        same_assignable_kind(value.values, lookup(scopes, name)->Some_0.values),
        lookup(assigned(scopes, name, value), name) == Some(value),
{
    law_assignable_iff_same_type(value.values, lookup(scopes, name)->Some_0.values);
    law_lookup_after_assign(scopes, name, value);
}

impl Environment {
    pub fn new(enclosing: Option<Box<Environment>>) -> (res: Self)
        ensures
            res.values@ == Map::<Seq<char>, VariableEnvironment>::empty(),
            res.enclosing == enclosing,
            res@ == seq![Map::<Seq<char>, VariableEnvironment>::empty()] + match enclosing {
                Some(outer) => scopes_of(*outer),
                None => Seq::empty(),
            },
    {
        let res = Environment { values: StringHashMap::new(), enclosing };
        proof {
            if res.enclosing is None {
                assert(res@ =~= seq![Map::<Seq<char>, VariableEnvironment>::empty()] + Seq::empty());
            }
        }
        res
    }

    /// The variable that `name` denotes, looked up from the innermost scope out.
    pub fn get(&self, name: Token) -> (res: Result<Option<&VariableEnvironment>, EvaluatorDiagnosticError>)
        ensures
            match res {
                Ok(Some(v)) => lookup(self@, name.span.literal@) == Some(*v),
                Ok(None) => false,
                Err(e) => lookup(self@, name.span.literal@) is None
                    && e == EvaluatorDiagnosticError::UndefinedVariable(name),
            },
        decreases self,
    {
        let ghost key = name.span.literal@;
        if self.values.contains_key(name.span.literal.as_str()) {
            return Ok(self.values.get(name.span.literal.as_str()));
        }
        if let Some(enclosing) = &self.enclosing {
            proof {
                let rest = scopes_of(**enclosing);
                assert(self@.drop_first() =~= rest);
                lemma_defining_scope_bound(rest, key);
                match defining_scope(rest, key) {
                    Some(i) => assert(self@[i + 1int] == rest[i as int]),
                    None => {},
                }
            }
            return enclosing.get(name);
        }
        proof {
            assert(self@ == seq![self.values@]);
            assert(!self@[0].contains_key(key));
            assert(self@.drop_first() =~= Seq::<Scope>::empty());
            assert(defining_scope(Seq::<Scope>::empty(), key) is None);
            assert(defining_scope(self@, key) is None);
        }
        Err(EvaluatorDiagnosticError::UndefinedVariable(name))
    }

    /// Defines `name` as `value` in the innermost scope; a name that scope
    /// already defines is refused and nothing changes.
    pub fn define(&mut self, name: String, value: VariableEnvironment) -> (res: Result<(), EvaluatorDiagnosticError>)
        ensures
            old(self).values@.contains_key(name@) ==> {
                &&& res == Err::<(), EvaluatorDiagnosticError>(
                    EvaluatorDiagnosticError::VariableAlreadyDefined(
                        name,
                        type_of_value(old(self).values@[name@].values),
                    ),
                )
                &&& *final(self) == *old(self)
            },
            !old(self).values@.contains_key(name@) ==> {
                &&& res is Ok
                &&& final(self).values@ == old(self).values@.insert(name@, value)
                &&& final(self).enclosing == old(self).enclosing
            },
            final(self)@ == if old(self).values@.contains_key(name@) {
                old(self)@
            } else {
                defined(old(self)@, name@, value)
            },
    {
        let name_string = name.clone();
        if self.values.contains_key(name.as_str()) {
            let existing = self.values.get(name.as_str());
            let kind = match existing {
                Some(v) => v.values.to_data_type(),
                None => DataType::NoneType,
            };
            return Err(EvaluatorDiagnosticError::VariableAlreadyDefined(name_string, kind));
        }
        self.values.insert(name, value);
        proof {
            assert(final(self)@ =~= defined(old(self)@, name@, value));
        }
        Ok(())
    }

    /// Gives `name` the value `value` in the innermost scope that defines
    /// it, provided the variable there is mutable and holds a value of the
    /// same kind; otherwise nothing changes and the reason is returned.
    pub fn assign(
        &mut self,
        name: &Token,
        value: VariableEnvironment,
        diagnostics: &mut Vec<EvaluatorDiagnosticError>,
    ) -> (res: Result<(), EvaluatorDiagnosticError>)
        ensures
            *final(diagnostics) == *old(diagnostics),
            match defining_scope(old(self)@, name.span.literal@) {
                None => {
                    &&& res == Err::<(), EvaluatorDiagnosticError>(
                        EvaluatorDiagnosticError::UndefinedVariable(*name),
                    )
                    &&& final(self)@ == old(self)@
                },
                Some(i) => {
                    let current = old(self)@[i as int][name.span.literal@];
                    if !current.is_mutable {
                        &&& res == Err::<(), EvaluatorDiagnosticError>(
                            EvaluatorDiagnosticError::InvalidReassignedVariable(name.span),
                        )
                        &&& final(self)@ == old(self)@
                    } else if !same_assignable_kind(value.values, current.values) {
                        &&& res == Err::<(), EvaluatorDiagnosticError>(
                            EvaluatorDiagnosticError::AssingInvalidType(
                                type_of_value(value.values),
                                type_of_value(current.values),
                                *name,
                            ),
                        )
                        &&& final(self)@ == old(self)@
                    } else {
                        &&& res is Ok
                        &&& final(self)@ == assigned(old(self)@, name.span.literal@, value)
                    }
                },
            },
        decreases *old(self),
    {
        let ghost key = name.span.literal@;
        if self.values.contains_key(name.span.literal.as_str()) {
            match self.values.get(name.span.literal.as_str()) {
                Some(current) => {
                    if !current.is_mutable {
                        return Err(EvaluatorDiagnosticError::InvalidReassignedVariable(name.span.clone()));
                    }
                    if !current.values.accepts(&value.values) {
                        return Err(
                            EvaluatorDiagnosticError::AssingInvalidType(
                                value.values.to_data_type(),
                                current.values.to_data_type(),
                                name.clone(),
                            ),
                        );
                    }
                },
                None => {},
            }
            self.values.insert(name.span.literal.clone(), value);
            proof {
                assert(final(self)@ =~= assigned(old(self)@, key, value));
            }
            return Ok(());
        }
        if let Some(enclosing) = &mut self.enclosing {
            let ghost before = scopes_of(**enclosing);
            let res = enclosing.assign(name, value, diagnostics);
            proof {
                assert(old(self)@.drop_first() =~= before);
                lemma_defining_scope_bound(before, key);
                assert(self@ =~= seq![self.values@] + self@.drop_first());
                match defining_scope(before, key) {
                    Some(i) => {
                        assert(old(self)@[i + 1int] == before[i as int]);
                        assert(assigned(old(self)@, key, value) =~= seq![self.values@] + assigned(before, key, value));
                    },
                    None => {},
                }
            }
            return res;
        }
        proof {
            assert(old(self)@ == seq![old(self).values@]);
            assert(!old(self)@[0].contains_key(key));
            assert(old(self)@.drop_first() =~= Seq::<Scope>::empty());
            assert(defining_scope(Seq::<Scope>::empty(), key) is None);
            assert(defining_scope(old(self)@, key) is None);
        }
        Err(EvaluatorDiagnosticError::UndefinedVariable(name.clone()))
    }
}

} // verus!
