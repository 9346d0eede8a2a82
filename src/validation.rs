use vstd::prelude::*;
use vstd::string::*;

use crate::spec_version::SpecVersion;

verus! {

/// One step on the way from an entity to a problem: a field, or a position in a list.
pub enum Step {
    Field(Seq<char>),
    Index(int),
}

/// A problem as a path and a message.
pub struct Issue {
    pub path: Seq<Step>,
    pub message: Seq<char>,
}

/// The steps that lead into field `name`, and into its element `index` if one is given.
pub open spec fn steps(name: Seq<char>, index: Option<int>) -> Seq<Step> {
    match index {
        None => seq![Step::Field(name)],
        Some(i) => seq![Step::Field(name), Step::Index(i)],
    }
}

/// A list position as an integer.
pub open spec fn position(index: Option<usize>) -> Option<int> {
    match index {
        None => None,
        Some(i) => Some(i as int),
    }
}

/// The issue moved below the path `prefix`.
pub open spec fn prefix_issue(prefix: Seq<Step>, e: Issue) -> Issue {
    Issue { path: prefix + e.path, message: e.message }
}

/// Every issue of `issues` moved below the path `prefix`, in order.
pub open spec fn prefixed(prefix: Seq<Step>, issues: Seq<Issue>) -> Seq<Issue> {
    issues.map_values(|e: Issue| prefix_issue(prefix, e))
}

/// A segment of the path of a validation error.
#[derive(Debug, PartialEq, Eq)]
pub enum PathSegment {
    Field(String),
    Index(usize),
}

impl View for PathSegment {
    type V = Step;

    open spec fn view(&self) -> Step {
        match self {
            PathSegment::Field(name) => Step::Field(name@),
            PathSegment::Index(i) => Step::Index(*i as int),
        }
    }
}

impl PathSegment {
    /// A copy with the same view.
    pub fn copy(&self) -> (r: PathSegment)
        ensures
            r@ == self@,
    {
        match self {
            PathSegment::Field(name) => PathSegment::Field(name.clone()),
            PathSegment::Index(i) => PathSegment::Index(*i),
        }
    }
}

pub open spec fn steps_of(path: Seq<PathSegment>) -> Seq<Step> {
    path.map_values(|s: PathSegment| s@)
}

/// A message, and the path of fields and list indices where it applies.
#[derive(Debug, PartialEq, Eq)]
pub struct ValidationError {
    pub path: Vec<PathSegment>,
    pub message: String,
}

impl View for ValidationError {
    type V = Issue;

    open spec fn view(&self) -> Issue {
        Issue { path: steps_of(self.path@), message: self.message@ }
    }
}

pub open spec fn issues_of(errors: Seq<ValidationError>) -> Seq<Issue> {
    errors.map_values(|e: ValidationError| e@)
}

impl ValidationError {
    /// An error with `message` at the place being checked, with an empty path.
    pub fn new(message: &str) -> (r: ValidationError)
        ensures
            r@ == (Issue { path: Seq::empty(), message: message@ }),
    {
        let r = ValidationError { path: Vec::new(), message: String::from_str(message) };
        assert(r@.path =~= Seq::<Step>::empty());
        r
    }

    /// A copy with the same view.
    pub fn copy(&self) -> (r: ValidationError)
        ensures
            r@ == self@,
    {
        let mut path: Vec<PathSegment> = Vec::new();
        let mut i: usize = 0;
        while i < self.path.len()
            invariant
                i <= self.path@.len(),
                steps_of(path@) =~= steps_of(self.path@.take(i as int)),
            decreases self.path@.len() - i,
        {
            let ghost before = path@;
            path.push(self.path[i].copy());
            assert(self.path@.take(i + 1) =~= self.path@.take(i as int).push(self.path@[i as int]));
            assert(steps_of(path@) =~= steps_of(before).push(self.path@[i as int]@));
            assert(steps_of(self.path@.take(i + 1)) =~= steps_of(self.path@.take(i as int)).push(
                self.path@[i as int]@,
            ));
            i = i + 1;
        }
        assert(self.path@.take(i as int) =~= self.path@);
        ValidationError { path, message: self.message.clone() }
    }

    /// The same error placed below field `name`, and below its element `index` if one is given.
    pub fn prefixed_by(self, name: &str, index: Option<usize>) -> (r: ValidationError)
        ensures
            r@ == prefix_issue(steps(name@, position(index)), self@),
    {
        let ValidationError { path: mut rest, message } = self;
        let ghost old_rest = rest@;
        let mut path: Vec<PathSegment> = Vec::new();
        path.push(PathSegment::Field(String::from_str(name)));
        match index {
            Some(i) => path.push(PathSegment::Index(i)),
            None => {},
        }
        let ghost head = path@;
        assert(steps_of(head) =~= steps(name@, position(index)));
        path.append(&mut rest);
        assert(steps_of(path@) =~= steps_of(head) + steps_of(old_rest));
        ValidationError { path, message }
    }
}

/// Places every error of `errors` below field `name`, and below its element `index` if one is given.
pub open spec fn errors_prefixed(name: Seq<char>, index: Option<int>, errors: Seq<Issue>) -> Seq<Issue> {
    prefixed(steps(name, index), errors)
}

/// A field check, tagged with the field's name.
pub open spec fn field_issues(name: Seq<char>, outcome: Result<(), ValidationError>) -> Seq<Issue> {
    match outcome {
        Ok(()) => Seq::empty(),
        Err(e) => seq![prefix_issue(seq![Step::Field(name)], e@)],
    }
}

/// The problems that a rule on field `name` yields: none where it `holds`, else one with `message`.
pub open spec fn rule_issues(name: Seq<char>, holds: bool, message: Seq<char>) -> Seq<Issue> {
    if holds {
        Seq::empty()
    } else {
        seq![Issue { path: seq![Step::Field(name)], message }]
    }
}

/// The outcome of a leaf rule: `Ok` where it `holds`, else an error with `message` and an empty path.
pub open spec fn outcome_is(outcome: Result<(), ValidationError>, holds: bool, message: Seq<char>) -> bool {
    if holds {
        outcome is Ok
    } else {
        outcome matches Err(e) && e@ == (Issue { path: Seq::empty(), message })
    }
}

/// The outcome of a validation: passed, or failed with at least one error.
#[derive(Debug, PartialEq, Eq)]
pub enum ValidationResult {
    Passed,
    Failed(Vec<ValidationError>),
}

impl View for ValidationResult {
    type V = Seq<Issue>;

    open spec fn view(&self) -> Seq<Issue> {
        match self {
            ValidationResult::Passed => Seq::empty(),
            ValidationResult::Failed(errors) => issues_of(errors@),
        }
    }
}

impl ValidationResult {
    /// A failed result never comes without an error.
    pub open spec fn wf(&self) -> bool {
        self matches ValidationResult::Failed(errors) ==> errors@.len() > 0
    }

    /// `Passed` for no errors, else `Failed` with the errors in order.
    pub fn from_errors(errors: Vec<ValidationError>) -> (r: ValidationResult)
        ensures
            r.wf(),
            r@ == issues_of(errors@),
            r is Passed <==> errors@.len() == 0,
            errors@.len() > 0 ==> r == ValidationResult::Failed(errors),
    {
        if errors.len() == 0 {
            assert(issues_of(errors@) =~= Seq::<Issue>::empty());
            ValidationResult::Passed
        } else {
            ValidationResult::Failed(errors)
        }
    }

    /// Whether no error was found.
    pub fn passed(&self) -> (r: bool)
        requires
            self.wf(),
        ensures
            r == (self@.len() == 0),
    {
        match self {
            ValidationResult::Passed => true,
            ValidationResult::Failed(errors) => {
                assert(self@.len() == errors@.len());
                false
            },
        }
    }

    /// The errors of a failed result, `None` for a passed one.
    pub fn errors(self) -> (r: Option<Vec<ValidationError>>)
        ensures
            r == match self {
                ValidationResult::Passed => None,
                ValidationResult::Failed(errors) => Some(errors),
            },
    {
        match self {
            ValidationResult::Passed => None,
            ValidationResult::Failed(errors) => Some(errors),
        }
    }
}

/// An error for field `name` with `message`.
pub fn field(name: &str, message: &str) -> (r: ValidationError)
    ensures
        r@ == (Issue { path: seq![Step::Field(name@)], message: message@ }),
{
    let r = ValidationError::new(message).prefixed_by(name, None);
    assert(r@.path =~= seq![Step::Field(name@)]);
    r
}

/// The errors of `entries`, each pair an index and the errors of that element, in order.
pub open spec fn list_entry_issues(name: Seq<char>, entries: Seq<(usize, Vec<ValidationError>)>) -> Seq<
    Issue,
>
    decreases entries.len(),
{
    if entries.len() == 0 {
        Seq::empty()
    } else {
        let last = entries.len() - 1;
        list_entry_issues(name, entries.take(last)) + errors_prefixed(
            name,
            Some(entries[last].0 as int),
            issues_of(entries[last].1@),
        )
    }
}

/// The errors of the elements of list `name`, given as pairs of an index and that element's errors.
pub fn list(name: &str, entries: &[(usize, Vec<ValidationError>)]) -> (r: Vec<ValidationError>)
    ensures
        issues_of(r@) == list_entry_issues(name@, entries@),
{
    let mut out: Vec<ValidationError> = Vec::new();
    let mut k: usize = 0;
    while k < entries.len()
        invariant
            k <= entries@.len(),
            issues_of(out@) == list_entry_issues(name@, entries@.take(k as int)),
        decreases entries@.len() - k,
    {
        let index = entries[k].0;
        let errors = &entries[k].1;
        let ghost before = issues_of(out@);
        let ghost pre = steps(name@, Some(index as int));
        let mut i: usize = 0;
        while i < errors.len()
            invariant
                i <= errors@.len(),
                k < entries@.len(),
                errors == &entries@[k as int].1,
                pre == steps(name@, Some(index as int)),
                issues_of(out@) == before + prefixed(pre, issues_of(errors@.take(i as int))),
            decreases errors@.len() - i,
        {
            let ghost out_before = out@;
            let e = errors[i].copy().prefixed_by(name, Some(index));
            assert(e@ == prefix_issue(pre, errors@[i as int]@));
            out.push(e);
            assert(issues_of(out@) =~= issues_of(out_before).push(e@));
            assert(issues_of(errors@.take(i + 1)) =~= issues_of(errors@.take(i as int)).push(
                errors@[i as int]@,
            ));
            assert(prefixed(pre, issues_of(errors@.take(i + 1))) =~= prefixed(
                pre,
                issues_of(errors@.take(i as int)),
            ).push(e@));
            assert(issues_of(out@) =~= before + prefixed(pre, issues_of(errors@.take(i + 1))));
            i = i + 1;
        }
        assert(errors@.take(i as int) =~= errors@);
        assert(entries@.take(k + 1).take(k as int) =~= entries@.take(k as int));
        k = k + 1;
    }
    assert(entries@.take(k as int) =~= entries@);
    out
}

/// The capability that every document entity has: checking itself against a schema version.
pub trait Validate: Sized {
    /// Every problem of the entity under `version`, in the order in which it is reported.
    spec fn validation(&self, version: SpecVersion) -> Seq<Issue>;

    /// Checks the entity against `version` and reports all of its problems.
    fn validate_version(&self, version: SpecVersion) -> (r: ValidationResult)
        ensures
            r.wf(),
            r@ == self.validation(version),
    ;

    /// The same check as `validate_version`.
    fn validate(&self, version: SpecVersion) -> (r: ValidationResult)
        ensures
            r.wf(),
            r@ == self.validation(version),
    {
        self.validate_version(version)
    }
}

/// Equality of the full contents of two values.
pub trait SameValue: View + Sized {
    fn same_value(&self, other: &Self) -> (r: bool)
        ensures
            r == (self@ == other@),
    ;
}

/// The problems of the elements of list `name`, each below its index, in list order.
pub open spec fn list_issues<T: Validate>(name: Seq<char>, items: Seq<T>, version: SpecVersion) -> Seq<
    Issue,
>
    decreases items.len(),
{
    if items.len() == 0 {
        Seq::empty()
    } else {
        let last = items.len() - 1;
        list_issues(name, items.take(last), version) + errors_prefixed(
            name,
            Some(last),
            items[last].validation(version),
        )
    }
}

/// Whether the element at `i` equals one that comes before it.
pub open spec fn is_repeat<T: View>(items: Seq<T>, i: int) -> bool {
    exists|j: int| 0 <= j < i && #[trigger] items[j]@ == items[i]@
}

pub open spec fn duplicate_message() -> Seq<char> {
    "Value is not unique"@
}

/// The error that reports the element at `i` of list `name` as a repeat.
pub open spec fn duplicate_issue(name: Seq<char>, i: int) -> Issue {
    Issue { path: steps(name, Some(i)), message: duplicate_message() }
}

/// One error for each element of list `name` that repeats an earlier one, at its index, in list order.
pub open spec fn duplicate_issues<T: View>(name: Seq<char>, items: Seq<T>) -> Seq<Issue>
    decreases items.len(),
{
    if items.len() == 0 {
        Seq::empty()
    } else {
        let last = items.len() - 1;
        duplicate_issues(name, items.take(last)) + if is_repeat(items, last) {
            seq![duplicate_issue(name, last)]
        } else {
            Seq::empty()
        }
    }
}

/// The problems of an optional sub-structure, below its field name.
pub open spec fn struct_option_issues<T: Validate>(
    name: Seq<char>,
    item: Option<T>,
    version: SpecVersion,
) -> Seq<Issue> {
    match item {
        None => Seq::empty(),
        Some(t) => errors_prefixed(name, None, t.validation(version)),
    }
}

/// The problems of an optional list whose elements must be unique: first the repeats, then
/// the problems of each element.
pub open spec fn unique_list_option_issues<T: Validate + SameValue>(
    name: Seq<char>,
    items: Option<Seq<T>>,
    version: SpecVersion,
) -> Seq<Issue> {
    match items {
        None => Seq::empty(),
        Some(v) => duplicate_issues(name, v) + list_issues(name, v, version),
    }
}

/// The value that an optional reference points to.
pub open spec fn present<T>(item: Option<&T>) -> Option<T> {
    match item {
        None => None,
        Some(t) => Some(*t),
    }
}

/// The elements of an optional list.
pub open spec fn list_option<T>(items: Option<&Vec<T>>) -> Option<Seq<T>> {
    match items {
        None => None,
        Some(v) => Some(v@),
    }
}

/// The views of the elements of a sequence.
pub open spec fn views<T: View>(items: Seq<T>) -> Seq<T::V> {
    items.map_values(|x: T| x@)
}

/// The view of an optional value.
pub open spec fn option_view<T: View>(item: Option<T>) -> Option<T::V> {
    match item {
        None => None,
        Some(x) => Some(x@),
    }
}

/// Whether two lists hold equal elements in the same order.
pub fn same_values<T: SameValue>(a: &Vec<T>, b: &Vec<T>) -> (r: bool)
    ensures
        r == (views(a@) == views(b@)),
{
    if a.len() != b.len() {
        assert(views(a@).len() != views(b@).len());
        return false;
    }
    let mut i: usize = 0;
    while i < a.len()
        invariant
            a@.len() == b@.len(),
            i <= a@.len(),
            forall|k: int| 0 <= k < i ==> a@[k]@ == b@[k]@,
        decreases a@.len() - i,
    {
        if !a[i].same_value(&b[i]) {
            assert(views(a@)[i as int] != views(b@)[i as int]);
            return false;
        }
        i = i + 1;
    }
    assert(views(a@) =~= views(b@));
    true
}

/// Whether two optional values are both absent, or both present and equal.
pub fn same_option<T: SameValue>(a: &Option<T>, b: &Option<T>) -> (r: bool)
    ensures
        r == (option_view(*a) == option_view(*b)),
{
    match (a, b) {
        (None, None) => true,
        (Some(x), Some(y)) => x.same_value(y),
        _ => false,
    }
}

/// Collects the problems of the fields of one entity.
pub struct ValidationContext {
    errors: Vec<ValidationError>,
}

impl View for ValidationContext {
    type V = Seq<Issue>;

    closed spec fn view(&self) -> Seq<Issue> {
        issues_of(self.errors@)
    }
}

impl ValidationContext {
    /// A context with nothing collected yet.
    pub fn new() -> (r: ValidationContext)
        ensures
            r@ == Seq::<Issue>::empty(),
    {
        let r = ValidationContext { errors: Vec::new() };
        assert(r@ =~= Seq::<Issue>::empty());
        r
    }

    /// Appends the errors of `result`, each placed below field `name` (and element `index`).
    fn absorb(&mut self, name: &str, index: Option<usize>, result: ValidationResult)
        ensures
            final(self)@ == old(self)@ + errors_prefixed(name@, position(index), result@),
    {
        match result {
            ValidationResult::Passed => {
                assert(errors_prefixed(name@, position(index), result@) =~= Seq::<Issue>::empty());
                assert(self@ + Seq::<Issue>::empty() =~= self@);
            },
            ValidationResult::Failed(errors) => {
                let ghost start = self@;
                let ghost all = errors@;
                let ghost pre = steps(name@, position(index));
                let mut rest = errors;
                let total = rest.len();
                let mut done: usize = 0;
                while rest.len() > 0
                    invariant
                        all.len() == total,
                        pre == steps(name@, position(index)),
                        done + rest@.len() == all.len(),
                        rest@ == all.skip(done as int),
                        self@ == start + prefixed(pre, issues_of(all.take(done as int))),
                    decreases rest@.len(),
                {
                    let ghost before = self.errors@;
                    let e = rest.remove(0);
                    assert(e == all[done as int]);
                    let e = e.prefixed_by(name, index);
                    assert(e@ == prefix_issue(pre, all[done as int]@));
                    self.errors.push(e);
                    proof {
                        assert(self.errors@ == before.push(e));
                        assert(issues_of(self.errors@) =~= issues_of(before).push(e@));
                        assert(all.take(done + 1) =~= all.take(done as int).push(all[done as int]));
                        assert(issues_of(all.take(done + 1)) =~= issues_of(all.take(done as int)).push(
                            all[done as int]@,
                        ));
                        assert(prefixed(pre, issues_of(all.take(done + 1))) =~= prefixed(
                            pre,
                            issues_of(all.take(done as int)),
                        ).push(e@));
                        assert(rest@ =~= all.skip(done + 1));
                    }
                    done = done + 1;
                }
                assert(all.take(done as int) =~= all);
            },
        }
    }

    /// Records the outcome of a check of the scalar field `name`.
    /// A rule with outcome `outcome_is(o, holds, m)` adds `rule_issues(name@, holds, m)`.
    pub fn add_field(self, name: &str, outcome: Result<(), ValidationError>) -> (r: ValidationContext)
        ensures
            r@ == self@ + field_issues(name@, outcome),
            forall|holds: bool, m: Seq<char>|
                outcome_is(outcome, holds, m) ==> r@ == self@ + rule_issues(name@, holds, m),
    {
        let ghost old_view = self@;
        let mut ctx = self;
        match outcome {
            Ok(()) => {
                assert(ctx@ + field_issues(name@, outcome) =~= ctx@);
            },
            Err(e) => {
                let e = e.prefixed_by(name, None);
                let ghost before = ctx.errors@;
                ctx.errors.push(e);
                assert(issues_of(ctx.errors@) =~= issues_of(before).push(e@));
                assert forall|holds: bool, m: Seq<char>| outcome_is(outcome, holds, m) implies ctx@
                    == old_view + rule_issues(name@, holds, m) by {
                    assert(e@.path =~= seq![Step::Field(name@)]);
                    assert(ctx@ =~= old_view + rule_issues(name@, holds, m));
                }
            },
        }
        ctx
    }

    /// Validates the sub-structure `item` if there is one, with its problems below field `name`.
    pub fn add_struct_option<T: Validate>(self, name: &str, item: Option<&T>, version: SpecVersion) -> (r:
        ValidationContext)
        ensures
            r@ == self@ + struct_option_issues(name@, present(item), version),
    {
        let mut ctx = self;
        match item {
            None => {
                assert(ctx@ + Seq::<Issue>::empty() =~= ctx@);
            },
            Some(t) => {
                let result = t.validate_version(version);
                ctx.absorb(name, None, result);
            },
        }
        ctx
    }

    /// Validates every element of list `name`, each with its problems below its index.
    pub fn add_list<T: Validate>(self, name: &str, items: &Vec<T>, version: SpecVersion) -> (r:
        ValidationContext)
        ensures
            r@ == self@ + list_issues(name@, items@, version),
    {
        let ghost start = self@;
        let mut ctx = self;
        let mut i: usize = 0;
        assert(start + list_issues(name@, items@.take(0), version) =~= start);
        while i < items.len()
            invariant
                i <= items@.len(),
                ctx@ == start + list_issues(name@, items@.take(i as int), version),
            decreases items@.len() - i,
        {
            let result = items[i].validate_version(version);
            ctx.absorb(name, Some(i), result);
            assert(items@.take(i + 1).take(i as int) =~= items@.take(i as int));
            assert(ctx@ =~= start + list_issues(name@, items@.take(i + 1), version));
            i = i + 1;
        }
        assert(items@.take(i as int) =~= items@);
        ctx
    }

    /// Records one error for each element of list `name` that repeats an earlier one.
    fn add_duplicates<T: SameValue>(self, name: &str, items: &Vec<T>) -> (r: ValidationContext)
        ensures
            r@ == self@ + duplicate_issues(name@, items@),
    {
        let ghost start = self@;
        let mut ctx = self;
        let mut i: usize = 0;
        assert(start + duplicate_issues(name@, items@.take(0)) =~= start);
        while i < items.len()
            invariant
                i <= items@.len(),
                ctx@ == start + duplicate_issues(name@, items@.take(i as int)),
            decreases items@.len() - i,
        {
            let mut repeat = false;
            let mut j: usize = 0;
            while j < i
                invariant
                    j <= i < items@.len(),
                    repeat == exists|k: int| 0 <= k < j && #[trigger] items@[k]@ == items@[i as int]@,
                decreases i - j,
            {
                if items[j].same_value(&items[i]) {
                    repeat = true;
                }
                j = j + 1;
            }
            let ghost prefix = items@.take(i + 1);
            assert(prefix.take(i as int) =~= items@.take(i as int));
            assert(is_repeat(prefix, i as int) == repeat) by {
                if repeat {
                    let k = choose|k: int| 0 <= k < i && #[trigger] items@[k]@ == items@[i as int]@;
                    assert(prefix[k]@ == prefix[i as int]@);
                }
                if is_repeat(prefix, i as int) {
                    let k = choose|k: int| 0 <= k < i && #[trigger] prefix[k]@ == prefix[i as int]@;
                    assert(items@[k]@ == items@[i as int]@);
                }
            }
            if repeat {
                let e = ValidationError::new("Value is not unique").prefixed_by(name, Some(i));
                let ghost before = ctx.errors@;
                assert(e@.path =~= duplicate_issue(name@, i as int).path);
                ctx.errors.push(e);
                assert(issues_of(ctx.errors@) =~= issues_of(before).push(e@));
            }
            assert(ctx@ =~= start + duplicate_issues(name@, prefix));
            i = i + 1;
        }
        assert(items@.take(i as int) =~= items@);
        ctx
    }

    /// For a list whose elements must be unique: records each repeat of an earlier element,
    /// then validates every element. Nothing is recorded when there is no list.
    pub fn add_unique_list_option<T: Validate + SameValue>(
        self,
        name: &str,
        items: Option<&Vec<T>>,
        version: SpecVersion,
    ) -> (r: ValidationContext)
        ensures
            r@ == self@ + unique_list_option_issues(name@, list_option(items), version),
    {
        match items {
            None => {
                assert(self@ + Seq::<Issue>::empty() =~= self@);
                self
            },
            Some(v) => {
                let ghost start = self@;
                let ctx = self.add_duplicates(name, v);
                let ctx = ctx.add_list(name, v, version);
                assert(ctx@ =~= start + (duplicate_issues(name@, v@) + list_issues(name@, v@, version)));
                ctx
            },
        }
    }

    /// The collected problems as one result.
    pub fn into_result(self) -> (r: ValidationResult)
        ensures
            r.wf(),
            r@ == self@,
    {
        ValidationResult::from_errors(self.errors)
    }
}

impl From<ValidationContext> for ValidationResult {
    fn from(ctx: ValidationContext) -> (r: ValidationResult) {
        ValidationResult::from_errors(ctx.errors)
    }
}

impl vstd::std_specs::convert::FromSpecImpl<ValidationContext> for ValidationResult {
    open spec fn obeys_from_spec() -> bool {
        true
    }

    closed spec fn from_spec(ctx: ValidationContext) -> ValidationResult {
        if ctx.errors@.len() == 0 {
            ValidationResult::Passed
        } else {
            ValidationResult::Failed(ctx.errors)
        }
    }
}

/// A context turned into a result with `from` or `into` holds the collected problems, in order.
pub proof fn lemma_result_from_context(ctx: ValidationContext)
    ensures
        <ValidationResult as vstd::std_specs::convert::FromSpec<ValidationContext>>::from_spec(ctx).wf(),
        <ValidationResult as vstd::std_specs::convert::FromSpec<ValidationContext>>::from_spec(ctx)@ == ctx@,
{
    assert(ctx.errors@.len() == 0 ==> issues_of(ctx.errors@) =~= Seq::<Issue>::empty());
}

/// No repeat is reported exactly when no element equals an earlier one.
pub proof fn lemma_no_duplicates_iff_no_repeats<T: View>(name: Seq<char>, items: Seq<T>)
    ensures
        duplicate_issues(name, items).len() == 0 <==> forall|i: int|
            0 <= i < items.len() ==> !#[trigger] is_repeat(items, i),
    decreases items.len(),
{
    if items.len() > 0 {
        let last = items.len() - 1;
        let pre = items.take(last);
        lemma_no_duplicates_iff_no_repeats(name, pre);
        assert forall|i: int| 0 <= i < last implies is_repeat(pre, i) == is_repeat(items, i) by {
            if is_repeat(items, i) {
                let j = choose|j: int| 0 <= j < i && #[trigger] items[j]@ == items[i]@;
                assert(pre[j]@ == pre[i]@);
            }
            if is_repeat(pre, i) {
                let j = choose|j: int| 0 <= j < i && #[trigger] pre[j]@ == pre[i]@;
                assert(items[j]@ == items[i]@);
            }
        }
    }
}

/// A list whose elements must be unique is fine when absent, or when no element repeats an
/// earlier one and every element passes.
pub open spec fn unique_list_passes<T: Validate + SameValue>(items: Option<Seq<T>>, version: SpecVersion) -> bool {
    match items {
        None => true,
        Some(s) => forall|i: int|
            0 <= i < s.len() ==> !#[trigger] is_repeat(s, i) && s[i].validation(version).len() == 0,
    }
}

/// A list whose elements must be unique yields no problem exactly when it is fine.
pub proof fn lemma_unique_list_passes<T: Validate + SameValue>(
    name: Seq<char>,
    items: Option<Seq<T>>,
    version: SpecVersion,
)
    ensures
        unique_list_option_issues(name, items, version).len() == 0 <==> unique_list_passes(
            items,
            version,
        ),
{
    if let Some(s) = items {
        lemma_no_duplicates_iff_no_repeats(name, s);
        lemma_list_passes_iff_elements_pass(name, s, version);
        let d = duplicate_issues(name, s);
        let l = list_issues(name, s, version);
        assert((d + l).len() == d.len() + l.len());
        if unique_list_passes(items, version) {
            assert forall|i: int| 0 <= i < s.len() implies #[trigger] s[i].validation(version).len()
                == 0 by {
                assert(!is_repeat(s, i));
            }
        }
        if d.len() == 0 && l.len() == 0 {
            assert forall|i: int| 0 <= i < s.len() implies !#[trigger] is_repeat(s, i)
                && s[i].validation(version).len() == 0 by {
                assert(s[i].validation(version).len() == 0);
            }
        }
    }
}

/// Validating the same entity twice against the same version gives equal results: any two
/// results that meet the contract of `validate_version` have the same errors in the same order.
pub proof fn lemma_validation_repeatable<T: Validate>(
    entity: &T,
    version: SpecVersion,
    first: ValidationResult,
    second: ValidationResult,
)
    requires
        first.wf(),
        second.wf(),
        first@ == entity.validation(version),
        second@ == entity.validation(version),
    ensures
        first@ == second@,
        first is Passed <==> second is Passed,
{
    match first {
        ValidationResult::Passed => {},
        ValidationResult::Failed(errors) => {
            assert(first@.len() == errors@.len());
        },
    }
    match second {
        ValidationResult::Passed => {},
        ValidationResult::Failed(errors) => {
            assert(second@.len() == errors@.len());
        },
    }
}

/// A result passes exactly when it holds no error.
pub proof fn lemma_passed_iff_no_issue(r: ValidationResult)
    requires
        r.wf(),
    ensures
        r is Passed <==> r@.len() == 0,
{
    match r {
        ValidationResult::Passed => {},
        ValidationResult::Failed(errors) => {
            assert(r@.len() == errors@.len());
        },
    }
}

/// A list passes exactly when each of its elements passes.
pub proof fn lemma_list_passes_iff_elements_pass<T: Validate>(
    name: Seq<char>,
    items: Seq<T>,
    version: SpecVersion,
)
    ensures
        list_issues(name, items, version).len() == 0 <==> forall|i: int|
            0 <= i < items.len() ==> #[trigger] items[i].validation(version).len() == 0,
    decreases items.len(),
{
    if items.len() > 0 {
        let last = items.len() - 1;
        let pre = items.take(last);
        lemma_list_passes_iff_elements_pass(name, pre, version);
        assert forall|i: int| 0 <= i < last implies pre[i] == items[i] by {}
        if list_issues(name, items, version).len() == 0 {
            assert forall|i: int| 0 <= i < items.len() implies #[trigger] items[i].validation(
                version,
            ).len() == 0 by {
                if i < last {
                    assert(pre[i] == items[i]);
                }
            }
        }
    }
}

/// Each problem of an element of a list is reported, below the list's name and the element's index.
pub proof fn lemma_list_reports_element_issue<T: Validate>(
    name: Seq<char>,
    items: Seq<T>,
    version: SpecVersion,
    i: int,
    k: int,
)
    requires
        0 <= i < items.len(),
        0 <= k < items[i].validation(version).len(),
    ensures
        list_issues(name, items, version).contains(
            prefix_issue(steps(name, Some(i)), items[i].validation(version)[k]),
        ),
    decreases items.len(),
{
    let last = items.len() - 1;
    let pre = items.take(last);
    let left = list_issues(name, pre, version);
    let whole = list_issues(name, items, version);
    let x = prefix_issue(steps(name, Some(i)), items[i].validation(version)[k]);
    if i == last {
        assert(whole[left.len() + k] == x);
    } else {
        assert(pre[i] == items[i]);
        lemma_list_reports_element_issue(name, pre, version, i, k);
        let j = choose|j: int| 0 <= j < left.len() && left[j] == x;
        assert(whole[j] == x);
    }
}

/// A repeat is reported at index `i` exactly when the element there equals an earlier one.
pub proof fn lemma_duplicates_exactly_at_repeats<T: View>(name: Seq<char>, items: Seq<T>, i: int)
    ensures
        duplicate_issues(name, items).contains(duplicate_issue(name, i)) <==> (0 <= i < items.len()
            && is_repeat(items, i)),
    decreases items.len(),
{
    let whole = duplicate_issues(name, items);
    let x = duplicate_issue(name, i);
    if items.len() > 0 {
        let last = items.len() - 1;
        let pre = items.take(last);
        let left = duplicate_issues(name, pre);
        lemma_duplicates_exactly_at_repeats(name, pre, i);
        if 0 <= i < last {
            if is_repeat(items, i) {
                let j = choose|j: int| 0 <= j < i && #[trigger] items[j]@ == items[i]@;
                assert(pre[j]@ == pre[i]@);
            }
            if is_repeat(pre, i) {
                let j = choose|j: int| 0 <= j < i && #[trigger] pre[j]@ == pre[i]@;
                assert(items[j]@ == items[i]@);
            }
        }
        if whole.contains(x) {
            let j = choose|j: int| 0 <= j < whole.len() && whole[j] == x;
            if j < left.len() {
                assert(left[j] == x);
            } else {
                assert(whole[j] == duplicate_issue(name, last));
                assert(x.path[1] == Step::Index(i));
                assert(duplicate_issue(name, last).path[1] == Step::Index(last));
            }
        }
        if 0 <= i < items.len() && is_repeat(items, i) {
            if i < last {
                let j = choose|j: int| 0 <= j < left.len() && left[j] == x;
                assert(whole[j] == x);
            } else {
                assert(whole[left.len() as int] == x);
            }
        }
    }
}

/// When the element at `j` equals the earlier one at `i`, and `i` is the first place that value
/// occurs, the repeat is reported at `j` and not at `i`.
pub proof fn lemma_repeat_reported_at_later_index<T: View>(
    name: Seq<char>,
    items: Seq<T>,
    i: int,
    j: int,
)
    requires
        0 <= i < j < items.len(),
        items[i]@ == items[j]@,
        forall|k: int| 0 <= k < i ==> items[k]@ != items[i]@,
    ensures
        duplicate_issues(name, items).contains(duplicate_issue(name, j)),
        !duplicate_issues(name, items).contains(duplicate_issue(name, i)),
{
    lemma_duplicates_exactly_at_repeats(name, items, i);
    lemma_duplicates_exactly_at_repeats(name, items, j);
    assert(is_repeat(items, j));
}

} // verus!
