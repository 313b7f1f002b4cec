use vstd::prelude::*;

verus! {

/// One failed check on a field: a code naming the check and, optionally, a
/// message for the user.
#[derive(Debug)]
pub struct ValidationError {
    pub code: String,
    pub message: Option<String>,
}

/// What failed under one field: its own checks, a nested struct, or the
/// items of a list (by index).
#[derive(Debug)]
pub enum ValidationErrorsKind {
    Struct(Box<ValidationErrors>),
    List(Vec<(usize, ValidationErrors)>),
    Field(Vec<ValidationError>),
}

/// The failed checks of a value, by field name. Struct-level checks are
/// recorded under the field `__all__`.
#[derive(Debug)]
pub struct ValidationErrors(pub Vec<(String, ValidationErrorsKind)>);

impl ValidationErrors {
    /// No failed check.
    pub fn new() -> (r: ValidationErrors)
        ensures
            r.0@.len() == 0,
    {
        ValidationErrors(Vec::new())
    }

    /// Whether no check failed.
    pub fn is_empty(&self) -> (r: bool)
        ensures
            r == (self.0@.len() == 0),
    {
        self.0.len() == 0
    }
}

/// The messages shown for failed field checks: each check's message, or
/// `Invalid field` when it has none.
pub open spec fn field_messages(errs: Seq<ValidationError>) -> Seq<Seq<char>> {
    errs.map_values(|e: ValidationError| match e.message {
        Some(m) => m@,
        None => "Invalid field"@,
    })
}

/// The messages shown for one field: those of its own checks, or all the
/// messages of a nested struct, one field after the other; none for a list.
pub open spec fn kind_messages(kind: ValidationErrorsKind) -> Option<Seq<Seq<char>>>
    decreases kind, 0nat,
{
    match kind {
        ValidationErrorsKind::Field(errs) => Some(field_messages(errs@)),
        ValidationErrorsKind::Struct(nested) => Some(
            flatten_messages(formatted_entries(nested.0@)),
        ),
        ValidationErrorsKind::List(_) => None,
    }
}

/// The fields of `entries` that have messages to show, each with its
/// messages, in order.
pub open spec fn formatted_entries(entries: Seq<(String, ValidationErrorsKind)>) -> Seq<(Seq<char>, Seq<Seq<char>>)>
    decreases entries, 1nat,
{
    if entries.len() == 0 {
        Seq::empty()
    } else {
        let rest = formatted_entries(entries.drop_last());
        match kind_messages(entries.last().1) {
            Some(msgs) => if msgs.len() > 0 {
                rest.push((entries.last().0@, msgs))
            } else {
                rest
            },
            None => rest,
        }
    }
}

/// Every field that formatting keeps has at least one message.
pub proof fn law_formatted_fields_have_messages(entries: Seq<(String, ValidationErrorsKind)>)
    ensures
        forall|i: int| 0 <= i < formatted_entries(entries).len() ==> #[trigger] formatted_entries(entries)[i].1.len() > 0,
    decreases entries.len(),
{
    if entries.len() > 0 {
        law_formatted_fields_have_messages(entries.drop_last());
        let rest = formatted_entries(entries.drop_last());
        match kind_messages(entries.last().1) {
            Some(msgs) => {
                if msgs.len() > 0 {
                    assert(formatted_entries(entries) == rest.push((entries.last().0@, msgs)));
                    assert forall|i: int| 0 <= i < formatted_entries(entries).len() implies #[trigger] formatted_entries(entries)[i].1.len() > 0 by {
                        if i < rest.len() {
                            assert(formatted_entries(entries)[i] == rest[i]);
                        }
                    }
                } else {
                    assert(formatted_entries(entries) == rest);
                }
            },
            None => {
                assert(formatted_entries(entries) == rest);
            },
        }
    }
}

/// How formatting treats one more field: a field whose own checks failed
/// is added after the others with one message per check, in order, each
/// the check's message or `Invalid field` when it has none; a field of a
/// list, or one with no failed check, adds nothing.
pub proof fn law_format_adds_field_messages(entries: Seq<(String, ValidationErrorsKind)>, name: String, errs: Vec<ValidationError>, items: Vec<(usize, ValidationErrors)>)
    ensures
        errs@.len() > 0 ==> formatted_entries(entries.push((name, ValidationErrorsKind::Field(errs)))).drop_last() == formatted_entries(entries),
        errs@.len() > 0 ==> formatted_entries(entries.push((name, ValidationErrorsKind::Field(errs)))).last().0 == name@,
        errs@.len() > 0 ==> formatted_entries(entries.push((name, ValidationErrorsKind::Field(errs)))).last().1.len() == errs@.len(),
        forall|i: int| 0 <= i < errs@.len() ==> (#[trigger] errs@[i].message matches Some(m) ==> formatted_entries(entries.push((name, ValidationErrorsKind::Field(errs)))).last().1[i] == m@),
        forall|i: int| 0 <= i < errs@.len() ==> (#[trigger] errs@[i].message is None ==> formatted_entries(entries.push((name, ValidationErrorsKind::Field(errs)))).last().1[i] == "Invalid field"@),
        errs@.len() == 0 ==> formatted_entries(entries.push((name, ValidationErrorsKind::Field(errs)))) == formatted_entries(entries),
        formatted_entries(entries.push((name, ValidationErrorsKind::List(items)))) == formatted_entries(entries),
{
    let field = entries.push((name, ValidationErrorsKind::Field(errs)));
    let list = entries.push((name, ValidationErrorsKind::List(items)));
    assert(field.drop_last() =~= entries);
    assert(list.drop_last() =~= entries);
    let rest = formatted_entries(entries);
    assert(field.len() > 0 && field.last() == (name, ValidationErrorsKind::Field(errs)));
    assert(list.len() > 0 && list.last() == (name, ValidationErrorsKind::List(items)));
    assert(kind_messages(ValidationErrorsKind::Field(errs)) == Some(field_messages(errs@)));
    assert(kind_messages(ValidationErrorsKind::List(items)) is None);
    assert(formatted_entries(list) == rest);
    if errs@.len() > 0 {
        assert(formatted_entries(field) == rest.push((name@, field_messages(errs@))));
        assert(formatted_entries(field).drop_last() =~= rest);
    }
}

/// No field name occurs twice among `entries`.
pub open spec fn fields_distinct(entries: Seq<(String, ValidationErrorsKind)>) -> bool {
    forall|i: int, j: int| 0 <= i < entries.len() && 0 <= j < entries.len() && i != j ==> #[trigger] entries[i].0@ != #[trigger] entries[j].0@
}

/// No field name occurs twice in a formatted list.
pub open spec fn formatted_distinct(f: Seq<(Seq<char>, Seq<Seq<char>>)>) -> bool {
    forall|i: int, j: int| 0 <= i < f.len() && 0 <= j < f.len() && i != j ==> #[trigger] f[i].0 != #[trigger] f[j].0
}

proof fn lemma_formatted_names_come_from_entries(entries: Seq<(String, ValidationErrorsKind)>)
    ensures
        forall|i: int| 0 <= i < formatted_entries(entries).len() ==> exists|j: int| 0 <= j < entries.len() && #[trigger] formatted_entries(entries)[i].0 == entries[j].0@,
        fields_distinct(entries) ==> formatted_distinct(formatted_entries(entries)),
    decreases entries.len(),
{
    if entries.len() > 0 {
        let init = entries.drop_last();
        lemma_formatted_names_come_from_entries(init);
        let rest = formatted_entries(init);
        let out = formatted_entries(entries);
        assert forall|i: int| 0 <= i < rest.len() implies exists|j: int| 0 <= j < entries.len() && #[trigger] rest[i].0 == entries[j].0@ by {
            let j = choose|j: int| 0 <= j < init.len() && rest[i].0 == init[j].0@;
            assert(init[j] == entries[j]);
        }
        match kind_messages(entries.last().1) {
            Some(msgs) => {
                if msgs.len() > 0 {
                    assert(out == rest.push((entries.last().0@, msgs)));
                    assert forall|i: int| 0 <= i < out.len() implies exists|j: int| 0 <= j < entries.len() && #[trigger] out[i].0 == entries[j].0@ by {
                        if i < rest.len() {
                            assert(out[i] == rest[i]);
                        } else {
                            assert(out[i].0 == entries[entries.len() - 1].0@);
                        }
                    }
                    if fields_distinct(entries) {
                        assert(fields_distinct(init)) by {
                            assert forall|i: int, j: int| 0 <= i < init.len() && 0 <= j < init.len() && i != j implies #[trigger] init[i].0@ != #[trigger] init[j].0@ by {
                                assert(init[i] == entries[i] && init[j] == entries[j]);
                            }
                        }
                        assert forall|i: int, j: int| 0 <= i < out.len() && 0 <= j < out.len() && i != j implies #[trigger] out[i].0 != #[trigger] out[j].0 by {
                            if i < rest.len() && j < rest.len() {
                                assert(out[i] == rest[i] && out[j] == rest[j]);
                            } else if i < rest.len() {
                                assert(out[i] == rest[i]);
                                let k = choose|k: int| 0 <= k < init.len() && rest[i].0 == init[k].0@;
                                assert(init[k] == entries[k]);
                                assert(entries[k].0@ != entries[entries.len() - 1].0@);
                            } else if j < rest.len() {
                                assert(out[j] == rest[j]);
                                let k = choose|k: int| 0 <= k < init.len() && rest[j].0 == init[k].0@;
                                assert(init[k] == entries[k]);
                                assert(entries[k].0@ != entries[entries.len() - 1].0@);
                            }
                        }
                    }
                } else {
                    assert(out == rest);
                    if fields_distinct(entries) {
                        assert forall|i: int, j: int| 0 <= i < init.len() && 0 <= j < init.len() && i != j implies #[trigger] init[i].0@ != #[trigger] init[j].0@ by {
                            assert(init[i] == entries[i] && init[j] == entries[j]);
                        }
                    }
                }
            },
            None => {
                assert(out == rest);
                if fields_distinct(entries) {
                    assert forall|i: int, j: int| 0 <= i < init.len() && 0 <= j < init.len() && i != j implies #[trigger] init[i].0@ != #[trigger] init[j].0@ by {
                        assert(init[i] == entries[i] && init[j] == entries[j]);
                    }
                }
            },
        }
    }
}

/// All the messages of a formatted list, one field after the other.
pub open spec fn flatten_messages(f: Seq<(Seq<char>, Seq<Seq<char>>)>) -> Seq<Seq<char>>
    decreases f.len(),
{
    if f.len() == 0 {
        Seq::empty()
    } else {
        flatten_messages(f.drop_last()) + f.last().1
    }
}

/// The contents of a sequence of strings.
pub open spec fn strings_view(v: Seq<String>) -> Seq<Seq<char>> {
    v.map_values(|s: String| s@)
}

/// Field names with the messages to show for them, in order; a field
/// occurs at most once when the errors it was made from name each field
/// once.
#[derive(Debug, Clone)]
pub struct FormattedErrors(pub Vec<(String, Vec<String>)>);

impl View for FormattedErrors {
    type V = Seq<(Seq<char>, Seq<Seq<char>>)>;

    open spec fn view(&self) -> Seq<(Seq<char>, Seq<Seq<char>>)> {
        self.0@.map_values(|p: (String, Vec<String>)| (p.0@, strings_view(p.1@)))
    }
}

/// The messages recorded for field `k` in `f`, if it occurs there (its
/// first occurrence).
pub open spec fn lookup_messages(f: Seq<(Seq<char>, Seq<Seq<char>>)>, k: Seq<char>) -> Option<Seq<Seq<char>>>
    decreases f.len(),
{
    if f.len() == 0 {
        None
    } else if f[0].0 == k {
        Some(f[0].1)
    } else {
        lookup_messages(f.drop_first(), k)
    }
}

fn clone_strings(v: &Vec<String>) -> (r: Vec<String>)
    ensures
        strings_view(r@) == strings_view(v@),
{
    let mut r: Vec<String> = Vec::new();
    let mut i: usize = 0;
    while i < v.len()
        invariant
            i <= v@.len(),
            strings_view(r@) =~= strings_view(v@).take(i as int),
        decreases v.len() - i,
    {
        let ghost before = r@;
        let c = v[i].clone();
        r.push(c);
        assert(strings_view(r@) =~= strings_view(before).push(v@[i as int]@));
        i = i + 1;
    }
    assert(strings_view(v@).take(v@.len() as int) =~= strings_view(v@));
    r
}

impl FormattedErrors {
    /// Whether no field has messages.
    pub fn is_empty(&self) -> (r: bool)
        ensures
            r == (self@.len() == 0),
    {
        self.0.len() == 0
    }

    /// How many fields have messages.
    pub fn len(&self) -> (r: usize)
        ensures
            r == self@.len(),
    {
        self.0.len()
    }

    /// The messages for field `key`, if it has any.
    pub fn get(&self, key: &str) -> (r: Option<&Vec<String>>)
        ensures
            match r {
                Some(v) => lookup_messages(self@, key@) == Some(strings_view(v@)),
                None => lookup_messages(self@, key@) is None,
            },
    {
        let k = key.to_owned();
        let mut i: usize = 0;
        assert(self@.skip(0) =~= self@);
        while i < self.0.len()
            invariant
                i <= self.0@.len(),
                k@ == key@,
                lookup_messages(self@, key@) == lookup_messages(self@.skip(i as int), key@),
            decreases self.0.len() - i,
        {
            assert(self@.skip(i as int).drop_first() =~= self@.skip(i + 1));
            if self.0[i].0 == k {
                return Some(&self.0[i].1);
            }
            i = i + 1;
        }
        None
    }

    /// Whether field `key` has messages.
    pub fn contains_key(&self, key: &str) -> (r: bool)
        ensures
            r == (lookup_messages(self@, key@) is Some),
    {
        self.get(key).is_some()
    }
}

fn flatten_exec(f: &FormattedErrors) -> (r: Vec<String>)
    ensures
        strings_view(r@) == flatten_messages(f@),
{
    let mut r: Vec<String> = Vec::new();
    let mut i: usize = 0;
    while i < f.0.len()
        invariant
            i <= f.0@.len(),
            strings_view(r@) =~= flatten_messages(f@.take(i as int)),
        decreases f.0.len() - i,
    {
        assert(f@.take(i + 1).drop_last() =~= f@.take(i as int));
        let mut j: usize = 0;
        let ghost base = strings_view(r@);
        let msgs = &f.0[i].1;
        while j < msgs.len()
            invariant
                j <= msgs@.len(),
                strings_view(r@) =~= base + strings_view(msgs@).take(j as int),
            decreases msgs.len() - j,
        {
            let ghost before = r@;
            let c = msgs[j].clone();
            r.push(c);
            assert(strings_view(r@) =~= strings_view(before).push(msgs@[j as int]@));
            assert(strings_view(msgs@).take(j + 1) =~= strings_view(msgs@).take(j as int).push(msgs@[j as int]@));
            j = j + 1;
        }
        assert(strings_view(msgs@).take(msgs@.len() as int) =~= strings_view(msgs@));
        i = i + 1;
    }
    assert(f@.take(f.0@.len() as int) =~= f@);
    r
}

fn messages_of(kind: &ValidationErrorsKind) -> (r: Option<Vec<String>>)
    ensures
        match r {
            Some(v) => kind_messages(*kind) == Some(strings_view(v@)),
            None => kind_messages(*kind) is None,
        },
    decreases *kind, 0nat,
{
    match kind {
        ValidationErrorsKind::Field(errs) => {
            let mut r: Vec<String> = Vec::new();
            let mut i: usize = 0;
            while i < errs.len()
                invariant
                    i <= errs@.len(),
                    strings_view(r@) =~= field_messages(errs@).take(i as int),
                decreases errs.len() - i,
            {
                let m = match &errs[i].message {
                    Some(m) => m.clone(),
                    None => "Invalid field".to_owned(),
                };
                let ghost before = r@;
                r.push(m);
                assert(strings_view(r@) =~= strings_view(before).push(field_messages(errs@)[i as int]));
                i = i + 1;
            }
            assert(field_messages(errs@).take(errs@.len() as int) =~= field_messages(errs@));
            Some(r)
        },
        ValidationErrorsKind::Struct(nested) => {
            let f = format_errors(nested);
            Some(flatten_exec(&f))
        },
        ValidationErrorsKind::List(_) => None,
    }
}

/// Turns validation errors into the messages to show, by field: each field
/// with its own checks' messages (`Invalid field` for a check without one),
/// a nested struct's messages all under the field that holds it; list
/// fields, and fields with no message, are left out.
pub fn format_errors(errors: &ValidationErrors) -> (r: FormattedErrors)
    ensures
        r@ == formatted_entries(errors.0@),
        fields_distinct(errors.0@) ==> formatted_distinct(r@),
    decreases errors.0@, 1nat,
{
    let mut out: Vec<(String, Vec<String>)> = Vec::new();
    let mut i: usize = 0;
    while i < errors.0.len()
        invariant
            i <= errors.0@.len(),
            FormattedErrors(out)@ =~= formatted_entries(errors.0@.take(i as int)),
        decreases errors.0.len() - i,
    {
        assert(errors.0@.take(i + 1).drop_last() =~= errors.0@.take(i as int));
        assert(errors.0@.take(i + 1).last() == errors.0@[i as int]);
        let entry = &errors.0[i];
        match messages_of(&entry.1) {
            Some(msgs) => {
                if msgs.len() > 0 {
                    out.push((entry.0.clone(), msgs));
                }
            },
            None => {},
        }
        i = i + 1;
    }
    assert(errors.0@.take(errors.0@.len() as int) =~= errors.0@);
    proof {
        lemma_formatted_names_come_from_entries(errors.0@);
    }
    FormattedErrors(out)
}

} // verus!
