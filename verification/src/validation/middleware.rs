//! Structured validation of client messages that answers refusals with
//! `ServerMessage::Error` responses, and a builder for validation workflows.
use crate::messages::ServerMessage;
use crate::protocol::ClientToServer;
use crate::text::{push_str, str_eq};
use crate::validation::{
    client_message_failure, error_kind_name, error_text, failure_of, failure_text, location_failure,
    meet_id_failure, password_failure, validate_client_message, validate_location_name,
    validate_meet_id, validate_password, Failure, ValidationError, ValidationResult,
};
use vstd::prelude::*;

verus! {

/// Validation middleware: turns validation refusals into error responses.
pub struct ValidationMiddleware;

/// The table from error-kind names to the codes sent to clients.
#[derive(Debug, Clone)]
pub struct ValidationContext {
    pub error_mappings: Vec<(String, String)>,
}

/// The table as pairs of texts.
pub open spec fn mapping_view(m: Seq<(String, String)>) -> Seq<(Seq<char>, Seq<char>)> {
    m.map_values(|p: (String, String)| (p.0@, p.1@))
}

/// The code that the first entry for `kind` gives, or `"VALIDATION_ERROR"`.
pub open spec fn code_for(m: Seq<(Seq<char>, Seq<char>)>, kind: Seq<char>) -> Seq<char>
    decreases m.len(),
{
    if m.len() == 0 {
        "VALIDATION_ERROR"@
    } else if m[0].0 == kind {
        m[0].1
    } else {
        code_for(m.drop_first(), kind)
    }
}

/// The default table: each error kind to its upper-case code.
pub open spec fn default_mappings() -> Seq<(Seq<char>, Seq<char>)> {
    seq![
        ("InvalidMeetId"@, "INVALID_MEET_ID"@),
        ("InvalidPassword"@, "INVALID_PASSWORD"@),
        ("InvalidLocationName"@, "INVALID_LOCATION"@),
        ("InvalidSessionToken"@, "INVALID_SESSION_TOKEN"@),
        ("InvalidUpdate"@, "INVALID_UPDATE"@),
        ("InvalidEmail"@, "INVALID_EMAIL"@),
        ("InvalidCsvData"@, "INVALID_CSV_DATA"@),
        ("MeetIdExists"@, "MEET_ID_EXISTS"@),
    ]
}

impl Default for ValidationContext {
    fn default() -> (c: Self)
        ensures
            mapping_view(c.error_mappings@) == default_mappings(),
    {
        let mut m: Vec<(String, String)> = Vec::new();
        m.push(("InvalidMeetId".to_string(), "INVALID_MEET_ID".to_string()));
        m.push(("InvalidPassword".to_string(), "INVALID_PASSWORD".to_string()));
        m.push(("InvalidLocationName".to_string(), "INVALID_LOCATION".to_string()));
        m.push(("InvalidSessionToken".to_string(), "INVALID_SESSION_TOKEN".to_string()));
        m.push(("InvalidUpdate".to_string(), "INVALID_UPDATE".to_string()));
        m.push(("InvalidEmail".to_string(), "INVALID_EMAIL".to_string()));
        m.push(("InvalidCsvData".to_string(), "INVALID_CSV_DATA".to_string()));
        m.push(("MeetIdExists".to_string(), "MEET_ID_EXISTS".to_string()));
        let c = ValidationContext { error_mappings: m };
        assert(mapping_view(c.error_mappings@) =~= default_mappings());
        c
    }
}

/// `res` is the error response `code`/`text`.
pub open spec fn is_error_response(res: ServerMessage, code: Seq<char>, text: Seq<char>) -> bool {
    res matches ServerMessage::Error { code: c, message: m } && c@ == code && m@ == text
}

impl ValidationMiddleware {
    /// Validates a protocol message; a refusal is answered with an error
    /// response whose code comes from `context` and whose message is the
    /// refusal's display text.
    pub fn validate_message(message: &ClientToServer, context: &ValidationContext) -> (res: Result<
        (),
        ServerMessage,
    >)
        ensures
            match client_message_failure(*message) {
                None => res is Ok,
                Some(f) => res matches Err(r) && is_error_response(
                    r,
                    code_for(mapping_view(context.error_mappings@), f.0),
                    failure_text(f),
                ),
            },
    {
        match validate_client_message(message) {
            Ok(()) => Ok(()),
            Err(e) => {
                let code = Self::map_validation_error(&e, context);
                Err(ServerMessage::Error { code, message: e.message() })
            },
        }
    }

    /// Passes a successful validation through; answers a refusal with an
    /// error response carrying `error_code` and the refusal's display text.
    pub fn validate_field<T>(validation_result: ValidationResult<T>, error_code: &str) -> (res:
        Result<T, ServerMessage>)
        ensures
            match validation_result {
                Ok(v) => res matches Ok(w) && w == v,
                Err(e) => res matches Err(r) && is_error_response(r, error_code@, error_text(e)),
            },
    {
        match validation_result {
            Ok(value) => Ok(value),
            Err(e) => Err(ServerMessage::Error { code: error_code.to_owned(), message: e.message() }),
        }
    }

    /// Runs several field validations and reports every refusal at once, as
    /// `"field: message"` entries joined by `"; "` under `"VALIDATION_FAILED"`.
    pub fn validate_fields(validations: Vec<(&str, ValidationResult<()>)>) -> (res: Result<
        (),
        ServerMessage,
    >)
        ensures
            field_errors(validations@).len() == 0 ==> res is Ok,
            field_errors(validations@).len() > 0 ==> (res matches Err(r) && is_error_response(
                r,
                "VALIDATION_FAILED"@,
                join(field_errors(validations@), "; "@),
            )),
    {
        let mut out = String::new();
        let mut any = false;
        let mut i: usize = 0;
        while i < validations.len()
            invariant
                i <= validations@.len(),
                any == (field_errors(validations@.take(i as int)).len() > 0),
                out@ == join(field_errors(validations@.take(i as int)), "; "@),
            decreases validations@.len() - i,
        {
            let ghost prev = validations@.take(i as int);
            assert(validations@.take(i + 1).drop_last() == prev);
            let (name, result) = &validations[i];
            match result {
                Err(e) => {
                    if any {
                        push_str(&mut out, "; ");
                    }
                    push_str(&mut out, name);
                    push_str(&mut out, ": ");
                    let m = e.message();
                    push_str(&mut out, m.as_str());
                    proof {
                        lemma_join_push(field_errors(prev), field_line(name@, *e), "; "@);
                    }
                    any = true;
                },
                Ok(()) => {},
            }
            i = i + 1;
        }
        assert(validations@.take(validations@.len() as int) == validations@);
        if any {
            return Err(ServerMessage::Error { code: "VALIDATION_FAILED".to_string(), message: out });
        }
        Ok(())
    }

    /// The code for an error: the context's entry for the error's kind, or
    /// `"VALIDATION_ERROR"` when the context has none.
    fn map_validation_error(error: &ValidationError, context: &ValidationContext) -> (code: String)
        ensures
            code@ == code_for(mapping_view(context.error_mappings@), error_kind_name(*error)),
    {
        let kind = error.kind_name();
        assert(mapping_view(context.error_mappings@).skip(0) =~= mapping_view(context.error_mappings@));
        let mut i: usize = 0;
        while i < context.error_mappings.len()
            invariant
                i <= context.error_mappings@.len(),
                kind@ == error_kind_name(*error),
                code_for(mapping_view(context.error_mappings@), error_kind_name(*error)) == code_for(
                    mapping_view(context.error_mappings@).skip(i as int),
                    error_kind_name(*error),
                ),
            decreases context.error_mappings@.len() - i,
        {
            let ghost rest = mapping_view(context.error_mappings@).skip(i as int);
            assert(rest.drop_first() == mapping_view(context.error_mappings@).skip(i + 1));
            assert(rest.len() > 0);
            assert(rest[0] == (context.error_mappings@[i as int].0@, context.error_mappings@[i as int].1@));
            assert(code_for(rest, error_kind_name(*error)) == if rest[0].0 == error_kind_name(*error) {
                rest[0].1
            } else {
                code_for(rest.drop_first(), error_kind_name(*error))
            });
            if str_eq(context.error_mappings[i].0.as_str(), kind) {
                let c = context.error_mappings[i].1.clone();
                assert(c@ == rest[0].1);
                return c;
            }
            i = i + 1;
        }
        "VALIDATION_ERROR".to_string()
    }

    /// Starts a validation workflow.
    pub fn builder() -> (b: ValidationBuilder)
        ensures
            b.pending() == Seq::<Option<Failure>>::empty(),
            b.codes() == default_mappings(),
    {
        ValidationBuilder::new()
    }
}

/// The line that reports a refused field.
pub open spec fn field_line(name: Seq<char>, e: ValidationError) -> Seq<char> {
    name + ": "@ + error_text(e)
}

/// The report lines of the refused fields, in order.
pub open spec fn field_errors(vs: Seq<(&str, ValidationResult<()>)>) -> Seq<Seq<char>>
    decreases vs.len(),
{
    if vs.len() == 0 {
        Seq::empty()
    } else {
        let rest = field_errors(vs.drop_last());
        match vs.last().1 {
            Err(e) => rest.push(field_line(vs.last().0@, e)),
            Ok(_) => rest,
        }
    }
}

/// The parts joined by `sep`.
pub open spec fn join(parts: Seq<Seq<char>>, sep: Seq<char>) -> Seq<char>
    decreases parts.len(),
{
    if parts.len() == 0 {
        Seq::empty()
    } else if parts.len() == 1 {
        parts[0]
    } else {
        join(parts.drop_last(), sep) + sep + parts.last()
    }
}

proof fn lemma_join_push(parts: Seq<Seq<char>>, p: Seq<char>, sep: Seq<char>)
    ensures
        join(parts.push(p), sep) == if parts.len() == 0 {
            p
        } else {
            join(parts, sep) + sep + p
        },
{
    assert(parts.push(p).drop_last() == parts);
    if parts.len() == 0 {
        assert(parts.push(p)[0] == p);
    }
}

/// Which field a data-carrying step validates.
#[derive(Debug, Clone, Copy)]
pub enum FieldCheck {
    MeetId,
    Password,
    LocationName,
}

/// How a field check refuses `data`, if it does.
pub open spec fn field_check_failure(check: FieldCheck, data: Seq<char>) -> Option<Failure> {
    match check {
        FieldCheck::MeetId => meet_id_failure(data),
        FieldCheck::Password => password_failure(data),
        FieldCheck::LocationName => location_failure(data),
    }
}

/// How an already computed validation result refuses, if it does.
pub open spec fn result_failure(r: ValidationResult<()>) -> Option<Failure> {
    match r {
        Ok(_) => None,
        Err(e) => Some(failure_of(e)),
    }
}

/// One step of a validation workflow.
enum ValidationStep {
    Outcome(ValidationResult<()>),
    Field(FieldCheck, String),
}

spec fn step_failure(s: ValidationStep) -> Option<Failure> {
    match s {
        ValidationStep::Outcome(r) => result_failure(r),
        ValidationStep::Field(c, d) => field_check_failure(c, d@),
    }
}

/// The first refusal among `fs`, in order.
pub open spec fn first_failure(fs: Seq<Option<Failure>>) -> Option<Failure>
    decreases fs.len(),
{
    if fs.len() == 0 {
        None
    } else if fs[0] is Some {
        fs[0]
    } else {
        first_failure(fs.drop_first())
    }
}

fn run_field_check(check: FieldCheck, data: &str) -> (res: ValidationResult<()>)
    ensures
        result_failure(res) == field_check_failure(check, data@),
{
    match check {
        FieldCheck::MeetId => match validate_meet_id(data) {
            Ok(_) => Ok(()),
            Err(e) => Err(e),
        },
        FieldCheck::Password => match validate_password(data) {
            Ok(_) => Ok(()),
            Err(e) => Err(e),
        },
        FieldCheck::LocationName => match validate_location_name(data) {
            Ok(_) => Ok(()),
            Err(e) => Err(e),
        },
    }
}

/// A validation workflow: steps run in order at `execute`, and the first
/// refusal is answered with an error response.
pub struct ValidationBuilder {
    validations: Vec<ValidationStep>,
    context: ValidationContext,
}

impl ValidationBuilder {
    /// The refusal (or `None`) of each step added so far, in order.
    pub closed spec fn pending(self) -> Seq<Option<Failure>> {
        self.validations@.map_values(|s: ValidationStep| step_failure(s))
    }

    /// The code table used to answer refusals.
    pub closed spec fn codes(self) -> Seq<(Seq<char>, Seq<char>)> {
        mapping_view(self.context.error_mappings@)
    }

    /// A workflow with no steps and the default code table.
    pub fn new() -> (b: Self)
        ensures
            b.pending() == Seq::<Option<Failure>>::empty(),
            b.codes() == default_mappings(),
    {
        let b = ValidationBuilder { validations: Vec::new(), context: ValidationContext::default() };
        assert(b.pending() =~= Seq::<Option<Failure>>::empty());
        b
    }

    /// Adds the check `validation`. Checks are taken in order and stop at
    /// the first refusal: once an earlier step refuses, `validation` is never
    /// called and the step adds no refusal; otherwise it is called once and
    /// its outcome is the step's.
    pub fn validate<F: Fn() -> ValidationResult<()>>(self, validation: F) -> (b: Self)
        requires
            first_failure(self.pending()) is None ==> validation.requires(()),
        ensures
            b.codes() == self.codes(),
            first_failure(self.pending()) is Some ==> b.pending() == self.pending().push(None),
            first_failure(self.pending()) is None ==> exists|r: ValidationResult<()>|
                #[trigger] validation.ensures((), r) && b.pending() == self.pending().push(result_failure(r)),
    {
        let mut s = self;
        if s.has_failure() {
            s.validations.push(ValidationStep::Outcome(Ok(())));
            assert(s.pending() =~= self.pending().push(None));
        } else {
            let r = validation();
            let ghost rg = r;
            s.validations.push(ValidationStep::Outcome(r));
            assert(s.pending() =~= self.pending().push(result_failure(rg)));
        }
        s
    }

    /// Whether a step added so far refuses.
    fn has_failure(&self) -> (b: bool)
        ensures
            b == (first_failure(self.pending()) is Some),
    {
        assert(self.pending().skip(0) =~= self.pending());
        let mut i: usize = 0;
        while i < self.validations.len()
            invariant
                i <= self.validations@.len(),
                first_failure(self.pending()) == first_failure(self.pending().skip(i as int)),
            decreases self.validations@.len() - i,
        {
            let ghost rest = self.pending().skip(i as int);
            assert(rest.drop_first() == self.pending().skip(i + 1));
            assert(rest[0] == step_failure(self.validations@[i as int]));
            let refuses = match &self.validations[i] {
                ValidationStep::Outcome(r) => r.is_err(),
                ValidationStep::Field(c, d) => run_field_check(*c, d.as_str()).is_err(),
            };
            if refuses {
                return true;
            }
            i = i + 1;
        }
        assert(self.pending().skip(i as int).len() == 0);
        false
    }

    /// Prepares a meet-ID check of `meet_id` (error code `"INVALID_MEET_ID"`).
    pub fn meet_id(self, meet_id: &str) -> (b: ValidationBuilderWithData)
        ensures
            b.inner_pending() == self.pending(),
            b.inner_codes() == self.codes(),
            b.data() == meet_id@,
            b.check() == FieldCheck::MeetId,
            b.error_code() == "INVALID_MEET_ID"@,
    {
        ValidationBuilderWithData {
            inner: self,
            data: meet_id.to_owned(),
            validator: FieldCheck::MeetId,
            error_code: "INVALID_MEET_ID".to_string(),
        }
    }

    /// Prepares a password check of `password` (error code `"INVALID_PASSWORD"`).
    pub fn password(self, password: &str) -> (b: ValidationBuilderWithData)
        ensures
            b.inner_pending() == self.pending(),
            b.inner_codes() == self.codes(),
            b.data() == password@,
            b.check() == FieldCheck::Password,
            b.error_code() == "INVALID_PASSWORD"@,
    {
        ValidationBuilderWithData {
            inner: self,
            data: password.to_owned(),
            validator: FieldCheck::Password,
            error_code: "INVALID_PASSWORD".to_string(),
        }
    }

    /// Prepares a location-name check of `location_name` (error code `"INVALID_LOCATION"`).
    pub fn location_name(self, location_name: &str) -> (b: ValidationBuilderWithData)
        ensures
            b.inner_pending() == self.pending(),
            b.inner_codes() == self.codes(),
            b.data() == location_name@,
            b.check() == FieldCheck::LocationName,
            b.error_code() == "INVALID_LOCATION"@,
    {
        ValidationBuilderWithData {
            inner: self,
            data: location_name.to_owned(),
            validator: FieldCheck::LocationName,
            error_code: "INVALID_LOCATION".to_string(),
        }
    }

    /// Runs the steps in order; the first refusal is answered with an error
    /// response whose code comes from the table.
    pub fn execute(self) -> (res: Result<(), ServerMessage>)
        ensures
            match first_failure(self.pending()) {
                None => res is Ok,
                Some(f) => res matches Err(r) && is_error_response(
                    r,
                    code_for(self.codes(), f.0),
                    failure_text(f),
                ),
            },
    {
        assert(self.pending().skip(0) =~= self.pending());
        let mut i: usize = 0;
        while i < self.validations.len()
            invariant
                i <= self.validations@.len(),
                first_failure(self.pending()) == first_failure(self.pending().skip(i as int)),
            decreases self.validations@.len() - i,
        {
            let ghost rest = self.pending().skip(i as int);
            assert(rest.drop_first() == self.pending().skip(i + 1));
            assert(rest[0] == step_failure(self.validations@[i as int]));
            let outcome = match &self.validations[i] {
                ValidationStep::Outcome(r) => match r {
                    Ok(()) => Ok(()),
                    Err(e) => Err(e.duplicate()),
                },
                ValidationStep::Field(c, d) => run_field_check(*c, d.as_str()),
            };
            match outcome {
                Err(e) => {
                    let code = ValidationMiddleware::map_validation_error(&e, &self.context);
                    return Err(ServerMessage::Error { code, message: e.message() });
                },
                Ok(()) => {},
            }
            i = i + 1;
        }
        Ok(())
    }
}

/// A prepared field check over its data, waiting to be run (`get_data`) or
/// added to the workflow (`and`).
pub struct ValidationBuilderWithData {
    inner: ValidationBuilder,
    data: String,
    validator: FieldCheck,
    error_code: String,
}

impl ValidationBuilderWithData {
    /// The steps of the workflow this check belongs to.
    pub closed spec fn inner_pending(self) -> Seq<Option<Failure>> {
        self.inner.pending()
    }

    /// The code table of the workflow this check belongs to.
    pub closed spec fn inner_codes(self) -> Seq<(Seq<char>, Seq<char>)> {
        self.inner.codes()
    }

    /// The data to be checked.
    pub closed spec fn data(self) -> Seq<char> {
        self.data@
    }

    /// The check to run.
    pub closed spec fn check(self) -> FieldCheck {
        self.validator
    }

    /// The code of this check's error response.
    pub closed spec fn error_code(self) -> Seq<char> {
        self.error_code@
    }

    /// Runs this check alone: the data when accepted, else an error response
    /// with this check's own code.
    pub fn get_data(self) -> (res: Result<String, ServerMessage>)
        ensures
            match field_check_failure(self.check(), self.data()) {
                None => res matches Ok(d) && d@ == self.data(),
                Some(f) => res matches Err(r) && is_error_response(r, self.error_code(), failure_text(f)),
            },
    {
        match run_field_check(self.validator, self.data.as_str()) {
            Ok(()) => Ok(self.data),
            Err(e) => {
                Err(ServerMessage::Error { code: self.error_code, message: e.message() })
            },
        }
    }

    /// Adds this check to the workflow and continues building.
    pub fn and(self) -> (b: ValidationBuilder)
        ensures
            b.pending() == self.inner_pending().push(field_check_failure(self.check(), self.data())),
            b.codes() == self.inner_codes(),
    {
        let mut inner = self.inner;
        let ghost before = inner.pending();
        inner.validations.push(ValidationStep::Field(self.validator, self.data));
        assert(inner.pending() =~= before.push(field_check_failure(self.check(), self.data())));
        inner
    }
}

/// Chaining a field check with `and()` adds the same step as adding, with
/// `validate()`, a check that gives what the field's validator gives for the
/// data (`r`): both workflows go on with the same refusals and the same code
/// table, so `execute` answers them alike.
pub proof fn lemma_and_is_validate(
    w: ValidationBuilderWithData,
    chained: ValidationBuilder,
    b: ValidationBuilder,
    r: ValidationResult<()>,
)
    requires
        result_failure(r) == field_check_failure(w.check(), w.data()),
        chained.pending() == w.inner_pending().push(field_check_failure(w.check(), w.data())),
        chained.codes() == w.inner_codes(),
        b.pending() == w.inner_pending().push(result_failure(r)),
        b.codes() == w.inner_codes(),
    ensures
        chained.pending() == b.pending(),
        chained.codes() == b.codes(),
        first_failure(chained.pending()) == first_failure(b.pending()),
{
}

} // verus!
