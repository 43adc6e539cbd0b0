//! Validation of client input: meet IDs, passwords, location names, session
//! tokens, e-mail addresses, updates and whole protocol messages.
//!
//! Lengths are counted in UTF-8 bytes; character classes are checked on
//! Unicode scalar values.

pub mod message_rules;
pub mod middleware;

use crate::protocol::{ClientToServer, EndpointPriority, Update};
use crate::text::{byte_len, push_char, str_byte_len, str_eq, all_chars, any_char, chars_of, char_is_lowercase, char_is_uppercase, is_ascii_alnum, is_ascii_digit, is_ascii_letter, push_str, unicode_lowercase, unicode_uppercase};
use vstd::prelude::*;

verus! {

/// Shortest accepted meet ID, in bytes.
pub const MIN_MEET_ID_LENGTH: usize = 3;
/// Longest accepted meet ID, in bytes.
pub const MAX_MEET_ID_LENGTH: usize = 50;
/// Shortest accepted password, in bytes.
pub const MIN_PASSWORD_LENGTH: usize = 10;
/// Longest accepted password, in bytes.
pub const MAX_PASSWORD_LENGTH: usize = 128;
/// Longest accepted location name, in bytes.
pub const MAX_LOCATION_NAME_LENGTH: usize = 100;
/// Longest accepted e-mail address, in bytes (the SMTP limit).
pub const MAX_EMAIL_LENGTH: usize = 254;

/// Why a piece of input was refused; each variant carries a human-readable detail.
#[derive(Debug, Clone)]
pub enum ValidationError {
    InvalidMeetId(String),
    InvalidPassword(String),
    InvalidLocationName(String),
    InvalidSessionToken(String),
    InvalidUpdate(String),
    InvalidEmail(String),
    InvalidCsvData(String),
    MeetIdExists(String),
}

/// Result type for validation operations.
pub type ValidationResult<T> = Result<T, ValidationError>;

/// The prefix that the display text of each kind of error starts with.
pub open spec fn error_prefix(e: ValidationError) -> Seq<char> {
    match e {
        ValidationError::InvalidMeetId(_) => "Invalid meet ID: "@,
        ValidationError::InvalidPassword(_) => "Invalid password: "@,
        ValidationError::InvalidLocationName(_) => "Invalid location name: "@,
        ValidationError::InvalidSessionToken(_) => "Invalid session token: "@,
        ValidationError::InvalidUpdate(_) => "Invalid update: "@,
        ValidationError::InvalidEmail(_) => "Invalid email: "@,
        ValidationError::InvalidCsvData(_) => "Invalid CSV data: "@,
        ValidationError::MeetIdExists(_) => "Meet ID already exists: "@,
    }
}

/// The detail that an error carries.
pub open spec fn error_detail(e: ValidationError) -> Seq<char> {
    match e {
        ValidationError::InvalidMeetId(m) => m@,
        ValidationError::InvalidPassword(m) => m@,
        ValidationError::InvalidLocationName(m) => m@,
        ValidationError::InvalidSessionToken(m) => m@,
        ValidationError::InvalidUpdate(m) => m@,
        ValidationError::InvalidEmail(m) => m@,
        ValidationError::InvalidCsvData(m) => m@,
        ValidationError::MeetIdExists(m) => m@,
    }
}

/// The display text of an error: its kind's prefix followed by its detail.
pub open spec fn error_text(e: ValidationError) -> Seq<char> {
    error_prefix(e) + error_detail(e)
}

impl ValidationError {
    /// A copy of this error.
    pub fn duplicate(&self) -> (e: Self)
        ensures
            e == *self,
    {
        match self {
            ValidationError::InvalidMeetId(m) => ValidationError::InvalidMeetId(m.clone()),
            ValidationError::InvalidPassword(m) => ValidationError::InvalidPassword(m.clone()),
            ValidationError::InvalidLocationName(m) => ValidationError::InvalidLocationName(m.clone()),
            ValidationError::InvalidSessionToken(m) => ValidationError::InvalidSessionToken(m.clone()),
            ValidationError::InvalidUpdate(m) => ValidationError::InvalidUpdate(m.clone()),
            ValidationError::InvalidEmail(m) => ValidationError::InvalidEmail(m.clone()),
            ValidationError::InvalidCsvData(m) => ValidationError::InvalidCsvData(m.clone()),
            ValidationError::MeetIdExists(m) => ValidationError::MeetIdExists(m.clone()),
        }
    }

    /// The display text of this error, e.g. `"Invalid meet ID: Meet ID must not be empty"`.
    pub fn message(&self) -> (s: String)
        ensures
            s@ == error_text(*self),
    {
        let (prefix, detail) = match self {
            ValidationError::InvalidMeetId(m) => ("Invalid meet ID: ", m),
            ValidationError::InvalidPassword(m) => ("Invalid password: ", m),
            ValidationError::InvalidLocationName(m) => ("Invalid location name: ", m),
            ValidationError::InvalidSessionToken(m) => ("Invalid session token: ", m),
            ValidationError::InvalidUpdate(m) => ("Invalid update: ", m),
            ValidationError::InvalidEmail(m) => ("Invalid email: ", m),
            ValidationError::InvalidCsvData(m) => ("Invalid CSV data: ", m),
            ValidationError::MeetIdExists(m) => ("Meet ID already exists: ", m),
        };
        let mut s = prefix.to_string();
        push_str(&mut s, detail.as_str());
        s
    }

    /// The name of this error's kind, as used by the error-code table.
    pub fn kind_name(&self) -> (s: &'static str)
        ensures
            s@ == error_kind_name(*self),
    {
        match self {
            ValidationError::InvalidMeetId(_) => "InvalidMeetId",
            ValidationError::InvalidPassword(_) => "InvalidPassword",
            ValidationError::InvalidLocationName(_) => "InvalidLocationName",
            ValidationError::InvalidSessionToken(_) => "InvalidSessionToken",
            ValidationError::InvalidUpdate(_) => "InvalidUpdate",
            ValidationError::InvalidEmail(_) => "InvalidEmail",
            ValidationError::InvalidCsvData(_) => "InvalidCsvData",
            ValidationError::MeetIdExists(_) => "MeetIdExists",
        }
    }
}

/// The name of an error's kind (its variant name).
pub open spec fn error_kind_name(e: ValidationError) -> Seq<char> {
    match e {
        ValidationError::InvalidMeetId(_) => "InvalidMeetId"@,
        ValidationError::InvalidPassword(_) => "InvalidPassword"@,
        ValidationError::InvalidLocationName(_) => "InvalidLocationName"@,
        ValidationError::InvalidSessionToken(_) => "InvalidSessionToken"@,
        ValidationError::InvalidUpdate(_) => "InvalidUpdate"@,
        ValidationError::InvalidEmail(_) => "InvalidEmail"@,
        ValidationError::InvalidCsvData(_) => "InvalidCsvData"@,
        ValidationError::MeetIdExists(_) => "MeetIdExists"@,
    }
}

// ---------------------------------------------------------------------------
// Character classes of the accepted formats

/// Characters allowed in a meet ID: ASCII letters, digits and `-`.
pub open spec fn meet_id_char(c: char) -> bool {
    is_ascii_alnum(c) || c == '-'
}

/// Characters refused in a location name: `< > / \ { } ( ) [ ] ;`.
pub open spec fn forbidden_location_char(c: char) -> bool {
    c == '<' || c == '>' || c == '/' || c == '\\' || c == '{' || c == '}' || c == '('
        || c == ')' || c == '[' || c == ']' || c == ';'
}

/// Characters allowed in the local part of an e-mail address.
pub open spec fn email_local_char(c: char) -> bool {
    is_ascii_alnum(c) || c == '.' || c == '_' || c == '%' || c == '+' || c == '-'
}

/// Characters allowed in the domain of an e-mail address (before the last dot).
pub open spec fn email_domain_char(c: char) -> bool {
    is_ascii_alnum(c) || c == '.' || c == '-'
}

/// All characters of `s[lo..hi]` satisfy `p`.
pub open spec fn range_all(s: Seq<char>, lo: int, hi: int, p: spec_fn(char) -> bool) -> bool {
    forall|i: int| lo <= i < hi ==> p(#[trigger] s[i])
}

/// The e-mail grammar: `local@domain.tld`, where `local` is one or more local
/// characters, `domain` one or more domain characters and `tld` two or more
/// ASCII letters.
pub open spec fn email_shape(s: Seq<char>) -> bool {
    exists|at: int, dot: int|
        #![trigger s[at], s[dot]]
        0 < at && at + 1 < dot && dot + 3 <= s.len() && s[at] == '@'
            && s[dot] == '.' && range_all(s, 0, at, |c: char| email_local_char(c))
            && range_all(s, at + 1, dot, |c: char| email_domain_char(c))
            && range_all(s, dot + 1, s.len() as int, |c: char| is_ascii_letter(c))
}

// ---------------------------------------------------------------------------
// Length rule shared by the field validators

/// The detail of a length violation of a field named `name` whose accepted
/// byte length is `min..=max`; `None` when the length is accepted.
pub open spec fn length_problem(
    chars: Seq<char>,
    byte_len: nat,
    empty_msg: Seq<char>,
    short_msg: Seq<char>,
    long_msg: Seq<char>,
    min: nat,
    max: nat,
) -> Option<Seq<char>> {
    if chars.len() == 0 {
        Some(empty_msg)
    } else if byte_len < min {
        Some(short_msg)
    } else if byte_len > max {
        Some(long_msg)
    } else {
        None
    }
}

/// The detail with which a meet ID is refused, or `None` when it is accepted.
pub open spec fn meet_id_problem(s: Seq<char>) -> Option<Seq<char>> {
    match length_problem(
        s,
        byte_len(s),
        "Meet ID must not be empty"@,
        "Meet ID must be at least 3 characters"@,
        "Meet ID must be between 3 and 50 characters"@,
        3,
        50,
    ) {
        Some(m) => Some(m),
        None => if all_chars(s, |c: char| meet_id_char(c)) {
            None
        } else {
            Some("Meet ID must contain only alphanumeric characters and hyphens"@)
        },
    }
}

/// The detail with which a password is refused, or `None` when it is accepted.
pub open spec fn password_problem(s: Seq<char>) -> Option<Seq<char>> {
    match length_problem(
        s,
        byte_len(s),
        "Password must not be empty"@,
        "Password must be at least 10 characters"@,
        "Password must be between 10 and 128 characters"@,
        10,
        128,
    ) {
        Some(m) => Some(m),
        None => if any_char(s, |c: char| unicode_uppercase(c)) && any_char(
            s,
            |c: char| unicode_lowercase(c),
        ) && any_char(s, |c: char| is_ascii_digit(c)) {
            None
        } else {
            Some("Password must contain uppercase, lowercase, and digit"@)
        },
    }
}

/// The detail with which a location name is refused, or `None` when it is accepted.
pub open spec fn location_name_problem(s: Seq<char>) -> Option<Seq<char>> {
    match length_problem(
        s,
        byte_len(s),
        "Location name must not be empty"@,
        "Location name must be at least 1 characters"@,
        "Location name must be between 1 and 100 characters"@,
        1,
        100,
    ) {
        Some(m) => Some(m),
        None => if any_char(s, |c: char| forbidden_location_char(c)) {
            Some("Location name contains invalid characters"@)
        } else {
            None
        },
    }
}

/// The detail with which an e-mail address is refused, or `None` when it is accepted.
pub open spec fn email_problem(s: Seq<char>) -> Option<Seq<char>> {
    match length_problem(
        s,
        byte_len(s),
        "Email must not be empty"@,
        "Email must be at least 1 characters"@,
        "Email must be between 1 and 254 characters"@,
        1,
        254,
    ) {
        Some(m) => Some(m),
        None => if email_shape(s) {
            None
        } else {
            Some("Invalid email address format"@)
        },
    }
}

} // verus!

verus! {

/// Applies the length rule; returns the detail of the violation, if any.
fn check_length(
    s: &str,
    empty_msg: &str,
    short_msg: &str,
    long_msg: &str,
    min: usize,
    max: usize,
) -> (r: Option<String>)
    ensures
        match length_problem(
            s@,
            byte_len(s@),
            empty_msg@,
            short_msg@,
            long_msg@,
            min as nat,
            max as nat,
        ) {
            Some(m) => r matches Some(x) && x@ == m,
            None => r is None,
        },
{
    if s.is_empty() {
        Some(empty_msg.to_owned())
    } else if str_byte_len(s) < min {
        Some(short_msg.to_owned())
    } else if str_byte_len(s) > max {
        Some(long_msg.to_owned())
    } else {
        None
    }
}

fn all_meet_id_chars(s: &str) -> (b: bool)
    ensures
        b == all_chars(s@, |c: char| meet_id_char(c)),
{
    let mut ok = true;
    for c in it: s.chars()
        invariant
            it.seq() == s@,
            ok == (forall|i: int| 0 <= i < it.index() ==> meet_id_char(#[trigger] s@[i])),
    {
        let good = ('a' <= c && c <= 'z') || ('A' <= c && c <= 'Z') || ('0' <= c && c <= '9')
            || c == '-';
        ok = ok && good;
    }
    ok
}

fn has_forbidden_location_char(s: &str) -> (b: bool)
    ensures
        b == any_char(s@, |c: char| forbidden_location_char(c)),
{
    let mut found = false;
    for c in it: s.chars()
        invariant
            it.seq() == s@,
            found == (exists|i: int| 0 <= i < it.index() && forbidden_location_char(#[trigger] s@[i])),
    {
        let bad = c == '<' || c == '>' || c == '/' || c == '\\' || c == '{' || c == '}' || c == '('
            || c == ')' || c == '[' || c == ']' || c == ';';
        found = found || bad;
    }
    found
}

/// Which of uppercase, lowercase and ASCII digit occur in `s`.
fn character_mix(s: &str) -> (r: (bool, bool, bool))
    ensures
        r.0 == any_char(s@, |c: char| unicode_uppercase(c)),
        r.1 == any_char(s@, |c: char| unicode_lowercase(c)),
        r.2 == any_char(s@, |c: char| is_ascii_digit(c)),
{
    let mut upper = false;
    let mut lower = false;
    let mut digit = false;
    for c in it: s.chars()
        invariant
            it.seq() == s@,
            upper == (exists|i: int| 0 <= i < it.index() && unicode_uppercase(#[trigger] s@[i])),
            lower == (exists|i: int| 0 <= i < it.index() && unicode_lowercase(#[trigger] s@[i])),
            digit == (exists|i: int| 0 <= i < it.index() && is_ascii_digit(#[trigger] s@[i])),
    {
        let u = char_is_uppercase(c);
        let l = char_is_lowercase(c);
        upper = upper || u;
        lower = lower || l;
        digit = digit || ('0' <= c && c <= '9');
    }
    (upper, lower, digit)
}

/// Index of the first occurrence of `target` in `v`.
fn first_index_of(v: &Vec<char>, target: char) -> (r: Option<usize>)
    ensures
        match r {
            Some(i) => i < v@.len() && v@[i as int] == target && forall|j: int|
                0 <= j < i ==> v@[j] != target,
            None => forall|j: int| 0 <= j < v@.len() ==> v@[j] != target,
        },
{
    let mut i: usize = 0;
    while i < v.len()
        invariant
            i <= v@.len(),
            forall|j: int| 0 <= j < i ==> v@[j] != target,
        decreases v@.len() - i,
    {
        if v[i] == target {
            return Some(i);
        }
        i = i + 1;
    }
    None
}

/// Index of the last occurrence of `target` in `v`.
fn last_index_of(v: &Vec<char>, target: char) -> (r: Option<usize>)
    ensures
        match r {
            Some(i) => i < v@.len() && v@[i as int] == target && forall|j: int|
                i < j < v@.len() ==> v@[j] != target,
            None => forall|j: int| 0 <= j < v@.len() ==> v@[j] != target,
        },
{
    let mut i: usize = v.len();
    while i > 0
        invariant
            i <= v@.len(),
            forall|j: int| i <= j < v@.len() ==> v@[j] != target,
        decreases i,
    {
        if v[i - 1] == target {
            return Some(i - 1);
        }
        i = i - 1;
    }
    None
}

fn range_ok(v: &Vec<char>, lo: usize, hi: usize, class: u8) -> (b: bool)
    requires
        lo <= hi <= v@.len(),
        class < 3,
    ensures
        class == 0 ==> b == range_all(v@, lo as int, hi as int, |c: char| email_local_char(c)),
        class == 1 ==> b == range_all(v@, lo as int, hi as int, |c: char| email_domain_char(c)),
        class == 2 ==> b == range_all(v@, lo as int, hi as int, |c: char| is_ascii_letter(c)),
{
    let mut i = lo;
    while i < hi
        invariant
            lo <= i <= hi <= v@.len(),
            class < 3,
            class == 0 ==> range_all(v@, lo as int, i as int, |c: char| email_local_char(c)),
            class == 1 ==> range_all(v@, lo as int, i as int, |c: char| email_domain_char(c)),
            class == 2 ==> range_all(v@, lo as int, i as int, |c: char| is_ascii_letter(c)),
        decreases hi - i,
    {
        let c = v[i];
        let letter = ('a' <= c && c <= 'z') || ('A' <= c && c <= 'Z');
        let alnum = letter || ('0' <= c && c <= '9');
        let good = if class == 0 {
            alnum || c == '.' || c == '_' || c == '%' || c == '+' || c == '-'
        } else if class == 1 {
            alnum || c == '.' || c == '-'
        } else {
            letter
        };
        if !good {
            return false;
        }
        i = i + 1;
    }
    true
}

/// Decides the e-mail grammar.
fn email_shape_ok(s: &str) -> (b: bool)
    ensures
        b == email_shape(s@),
{
    let v = chars_of(s);
    let n = v.len();
    let at = first_index_of(&v, '@');
    let dot = last_index_of(&v, '.');
    match (at, dot) {
        (Some(a), Some(d)) => {
            if 0 < a && a + 1 < d && n - d >= 3 {
                let r = range_ok(&v, 0, a, 0) && range_ok(&v, a + 1, d, 1) && range_ok(&v, d + 1, n, 2);
                proof {
                    if r {
                        assert(v@[a as int] == '@' && v@[d as int] == '.');
                    }
                    if email_shape(s@) {
                        let (a2, d2) = choose|a2: int, d2: int|
                            #![trigger s@[a2], s@[d2]]
                            0 < a2 && a2 + 1 < d2 && d2 + 3 <= s@.len() && s@[a2] == '@'
                                && s@[d2] == '.' && range_all(s@, 0, a2, |c: char| email_local_char(c))
                                && range_all(s@, a2 + 1, d2, |c: char| email_domain_char(c))
                                && range_all(s@, d2 + 1, s@.len() as int, |c: char| is_ascii_letter(c));
                        if a2 > a {
                            assert(email_local_char(s@[a as int]));
                        }
                        if a2 < a {
                            assert(s@[a2] != '@');
                        }
                        if d2 < d {
                            assert(is_ascii_letter(s@[d as int]));
                        }
                        if d2 > d {
                            assert(s@[d2] != '.');
                        }
                        assert(a2 == a && d2 == d);
                    }
                }
                r
            } else {
                proof {
                    if email_shape(s@) {
                        let (a2, d2) = choose|a2: int, d2: int|
                            #![trigger s@[a2], s@[d2]]
                            0 < a2 && a2 + 1 < d2 && d2 + 3 <= s@.len() && s@[a2] == '@'
                                && s@[d2] == '.' && range_all(s@, 0, a2, |c: char| email_local_char(c))
                                && range_all(s@, a2 + 1, d2, |c: char| email_domain_char(c))
                                && range_all(s@, d2 + 1, s@.len() as int, |c: char| is_ascii_letter(c));
                        if a2 > a {
                            assert(email_local_char(s@[a as int]));
                        }
                        if a2 < a {
                            assert(s@[a2] != '@');
                        }
                        if d2 < d {
                            assert(is_ascii_letter(s@[d as int]));
                        }
                        if d2 > d {
                            assert(s@[d2] != '.');
                        }
                    }
                }
                false
            }
        },
        _ => {
            proof {
                if email_shape(s@) {
                    let (a2, d2) = choose|a2: int, d2: int|
                        #![trigger s@[a2], s@[d2]]
                        0 < a2 && a2 + 1 < d2 && d2 + 3 <= s@.len() && s@[a2] == '@' && s@[d2]
                            == '.' && range_all(s@, 0, a2, |c: char| email_local_char(c))
                            && range_all(s@, a2 + 1, d2, |c: char| email_domain_char(c))
                            && range_all(s@, d2 + 1, s@.len() as int, |c: char| is_ascii_letter(c));
                    assert(v@[a2] == '@');
                    assert(v@[d2] == '.');
                }
            }
            false
        },
    }
}

/// Validates a meet ID: 3 to 50 bytes of ASCII letters, digits and hyphens.
pub fn validate_meet_id(meet_id: &str) -> (res: ValidationResult<&str>)
    ensures
        match meet_id_problem(meet_id@) {
            None => res == Ok::<&str, ValidationError>(meet_id),
            Some(m) => res matches Err(ValidationError::InvalidMeetId(d)) && d@ == m,
        },
{
    if let Some(m) = check_length(
        meet_id,
        "Meet ID must not be empty",
        "Meet ID must be at least 3 characters",
        "Meet ID must be between 3 and 50 characters",
        MIN_MEET_ID_LENGTH,
        MAX_MEET_ID_LENGTH,
    ) {
        return Err(ValidationError::InvalidMeetId(m));
    }
    if !all_meet_id_chars(meet_id) {
        return Err(
            ValidationError::InvalidMeetId(
                "Meet ID must contain only alphanumeric characters and hyphens".to_string(),
            ),
        );
    }
    Ok(meet_id)
}

/// Validates a password: 10 to 128 bytes with an uppercase letter, a
/// lowercase letter and an ASCII digit.
pub fn validate_password(password: &str) -> (res: ValidationResult<&str>)
    ensures
        match password_problem(password@) {
            None => res == Ok::<&str, ValidationError>(password),
            Some(m) => res matches Err(ValidationError::InvalidPassword(d)) && d@ == m,
        },
{
    if let Some(m) = check_length(
        password,
        "Password must not be empty",
        "Password must be at least 10 characters",
        "Password must be between 10 and 128 characters",
        MIN_PASSWORD_LENGTH,
        MAX_PASSWORD_LENGTH,
    ) {
        return Err(ValidationError::InvalidPassword(m));
    }
    let (upper, lower, digit) = character_mix(password);
    if !(upper && lower && digit) {
        return Err(
            ValidationError::InvalidPassword(
                "Password must contain uppercase, lowercase, and digit".to_string(),
            ),
        );
    }
    Ok(password)
}

/// Validates a location name: 1 to 100 bytes without `< > / \ { } ( ) [ ] ;`.
pub fn validate_location_name(location_name: &str) -> (res: ValidationResult<&str>)
    ensures
        match location_name_problem(location_name@) {
            None => res == Ok::<&str, ValidationError>(location_name),
            Some(m) => res matches Err(ValidationError::InvalidLocationName(d)) && d@ == m,
        },
{
    if let Some(m) = check_length(
        location_name,
        "Location name must not be empty",
        "Location name must be at least 1 characters",
        "Location name must be between 1 and 100 characters",
        1,
        MAX_LOCATION_NAME_LENGTH,
    ) {
        return Err(ValidationError::InvalidLocationName(m));
    }
    if has_forbidden_location_char(location_name) {
        return Err(
            ValidationError::InvalidLocationName(
                "Location name contains invalid characters".to_string(),
            ),
        );
    }
    Ok(location_name)
}

/// Validates an e-mail address: 1 to 254 bytes of the shape `local@domain.tld`.
pub fn validate_email(email: &str) -> (res: ValidationResult<&str>)
    ensures
        match email_problem(email@) {
            None => res == Ok::<&str, ValidationError>(email),
            Some(m) => res matches Err(ValidationError::InvalidEmail(d)) && d@ == m,
        },
{
    if let Some(m) = check_length(
        email,
        "Email must not be empty",
        "Email must be at least 1 characters",
        "Email must be between 1 and 254 characters",
        1,
        MAX_EMAIL_LENGTH,
    ) {
        return Err(ValidationError::InvalidEmail(m));
    }
    if !email_shape_ok(email) {
        return Err(ValidationError::InvalidEmail("Invalid email address format".to_string()));
    }
    Ok(email)
}

} // verus!

verus! {

/// A refusal as the specifications see it: the error kind's name, the
/// kind's display prefix and the detail.
pub type Failure = (Seq<char>, Seq<char>, Seq<char>);

/// Tags the detail of a refused field with its error kind's name and prefix.
pub open spec fn flagged(kind: Seq<char>, prefix: Seq<char>, p: Option<Seq<char>>) -> Option<Failure> {
    match p {
        Some(d) => Some((kind, prefix, d)),
        None => None,
    }
}

/// The display text of a refusal.
pub open spec fn failure_text(f: Failure) -> Seq<char> {
    f.1 + f.2
}

/// How an error refuses, as a `Failure`.
pub open spec fn failure_of(e: ValidationError) -> Failure {
    (error_kind_name(e), error_prefix(e), error_detail(e))
}

/// The first refusal of two checks run in order.
pub open spec fn first_of(a: Option<Failure>, b: Option<Failure>) -> Option<Failure> {
    if a is Some {
        a
    } else {
        b
    }
}

/// `res` reports exactly the refusal `f` (or success when `f` is `None`).
pub open spec fn reports<T>(res: ValidationResult<T>, f: Option<Failure>) -> bool {
    match f {
        None => res is Ok,
        Some(t) => res matches Err(e) && failure_of(e) == t,
    }
}

/// A hexadecimal digit, in either case.
pub open spec fn hex_digit(c: char) -> bool {
    ('0' <= c && c <= '9') || ('a' <= c && c <= 'f') || ('A' <= c && c <= 'F')
}

/// The 8-4-4-4-12 form: hexadecimal digits with hyphens at 8, 13, 18 and 23.
pub open spec fn hyphenated_uuid(s: Seq<char>) -> bool {
    &&& s.len() == 36
    &&& forall|i: int|
        0 <= i < 36 ==> if i == 8 || i == 13 || i == 18 || i == 23 {
            #[trigger] s[i] == '-'
        } else {
            hex_digit(s[i])
        }
}

/// `c` is `lower`, or its ASCII uppercase form.
pub open spec fn same_ignoring_case(c: char, lower: char) -> bool {
    c == lower || ('A' <= c && c <= 'Z' && (c as int) + 32 == (lower as int))
}

/// `s` begins with `urn:uuid:`, in any ASCII case.
pub open spec fn urn_prefix(s: Seq<char>) -> bool {
    &&& s.len() >= 9
    &&& same_ignoring_case(s[0], 'u') && same_ignoring_case(s[1], 'r') && same_ignoring_case(s[2], 'n')
    &&& s[3] == ':'
    &&& same_ignoring_case(s[4], 'u') && same_ignoring_case(s[5], 'u') && same_ignoring_case(s[6], 'i')
    &&& same_ignoring_case(s[7], 'd')
    &&& s[8] == ':'
}

/// What `uuid::Uuid::parse_str` accepts: 32 hexadecimal digits, the
/// hyphenated form, the hyphenated form in braces, or the hyphenated form
/// after a `urn:uuid:` prefix (in any case).
pub open spec fn uuid_text(s: Seq<char>) -> bool {
    ||| s.len() == 32 && forall|i: int| 0 <= i < 32 ==> hex_digit(#[trigger] s[i])
    ||| hyphenated_uuid(s)
    ||| s.len() == 38 && s[0] == '{' && s[37] == '}' && hyphenated_uuid(s.subrange(1, 37))
    ||| s.len() == 45 && urn_prefix(s) && hyphenated_uuid(s.skip(9))
}

/// Calls `uuid::Uuid::parse_str` and reports whether it accepted the text
/// (its parser takes the forms of `uuid_text` by byte length and content;
/// a non-ASCII character fits none of them).
#[verifier::external_body]
fn uuid_parses(s: &str) -> (b: bool)
    ensures
        b == uuid_text(s@),
{
    uuid::Uuid::parse_str(s).is_ok()
}

/// The detail with which a session token is refused, or `None` when it is accepted:
/// a non-empty UUID text of 32 or 36 bytes.
pub open spec fn session_token_problem(s: Seq<char>) -> Option<Seq<char>> {
    if s.len() == 0 {
        Some("Session token must not be empty"@)
    } else if byte_len(s) != 36 && byte_len(s) != 32 {
        Some("Invalid session token format"@)
    } else if !uuid_text(s) {
        Some("Invalid session token format"@)
    } else {
        None
    }
}

/// Validates a session token: a UUID written in 32 or 36 bytes.
pub fn validate_session_token(token: &str) -> (res: ValidationResult<&str>)
    ensures
        match session_token_problem(token@) {
            None => res == Ok::<&str, ValidationError>(token),
            Some(m) => res matches Err(ValidationError::InvalidSessionToken(d)) && d@ == m,
        },
{
    if token.is_empty() {
        return Err(
            ValidationError::InvalidSessionToken("Session token must not be empty".to_string()),
        );
    }
    let n = str_byte_len(token);
    if n != 36 && n != 32 {
        return Err(ValidationError::InvalidSessionToken("Invalid session token format".to_string()));
    }
    if !uuid_parses(token) {
        return Err(ValidationError::InvalidSessionToken("Invalid session token format".to_string()));
    }
    Ok(token)
}

/// Two consecutive dots occur in `s`.
pub open spec fn has_double_dot(s: Seq<char>) -> bool {
    exists|i: int| 0 <= i && i + 1 < s.len() && #[trigger] s[i] == '.' && s[i + 1] == '.'
}

/// The detail with which an update is refused, or `None` when it is accepted.
pub open spec fn update_problem(u: Update) -> Option<Seq<char>> {
    let k = u.update_key@;
    if k.len() == 0 {
        Some("Update key must not be empty"@)
    } else if has_double_dot(k) || k[0] == '/' {
        Some("Invalid update key format"@)
    } else if u.update_value@ == "null"@ {
        Some("Update value must not be null"@)
    } else {
        None
    }
}

fn double_dot_in(s: &str) -> (b: bool)
    ensures
        b == has_double_dot(s@),
{
    let v = chars_of(s);
    let mut i: usize = 0;
    while i < v.len() && v.len() - i > 1
        invariant
            v@ == s@,
            i <= v@.len(),
            forall|j: int| 0 <= j < i && j + 1 < v@.len() ==> !(#[trigger] v@[j] == '.' && v@[j + 1] == '.'),
        decreases v@.len() - i,
    {
        if v[i] == '.' && v[i + 1] == '.' {
            return true;
        }
        i = i + 1;
    }
    false
}

/// Validates an update: a non-empty key that holds no `..` and does not start
/// with `/`, and a value other than JSON `null`.
pub fn validate_update(update: &Update) -> (res: ValidationResult<()>)
    ensures
        match update_problem(*update) {
            None => res is Ok,
            Some(m) => res matches Err(ValidationError::InvalidUpdate(d)) && d@ == m,
        },
{
    let key = update.update_key.as_str();
    if key.is_empty() {
        return Err(ValidationError::InvalidUpdate("Update key must not be empty".to_string()));
    }
    let first = chars_of(key);
    if double_dot_in(key) || first[0] == '/' {
        return Err(ValidationError::InvalidUpdate("Invalid update key format".to_string()));
    }
    if str_eq(update.update_value.as_str(), "null") {
        return Err(ValidationError::InvalidUpdate("Update value must not be null".to_string()));
    }
    Ok(())
}

/// The HTML escape of one character.
pub open spec fn html_escape_char(c: char) -> Seq<char> {
    if c == '&' {
        "&amp;"@
    } else if c == '<' {
        "&lt;"@
    } else if c == '>' {
        "&gt;"@
    } else if c == '"' {
        "&quot;"@
    } else if c == '\'' {
        "&#x27;"@
    } else {
        seq![c]
    }
}

/// The HTML escape of a text: each character replaced by its escape.
pub open spec fn html_escape(s: Seq<char>) -> Seq<char>
    decreases s.len(),
{
    if s.len() == 0 {
        Seq::empty()
    } else {
        html_escape(s.drop_last()) + html_escape_char(s.last())
    }
}

/// Escapes the HTML-significant characters `& < > " '` of `input`.
pub fn sanitize_string(input: &str) -> (out: String)
    ensures
        out@ == html_escape(input@),
{
    let mut out = String::new();
    for c in it: input.chars()
        invariant
            it.seq() == input@,
            out@ == html_escape(input@.take(it.index() as int)),
    {
        let ghost before = input@.take(it.index() as int);
        proof {
            let next = input@.take(it.index() + 1);
            assert(next.drop_last() == before);
            assert(next.last() == c);
        }
        if c == '&' {
            push_str(&mut out, "&amp;");
        } else if c == '<' {
            push_str(&mut out, "&lt;");
        } else if c == '>' {
            push_str(&mut out, "&gt;");
        } else if c == '"' {
            push_str(&mut out, "&quot;");
        } else if c == '\'' {
            push_str(&mut out, "&#x27;");
        } else {
            push_char(&mut out, c);
        }
    }
    proof {
        assert(input@.take(input@.len() as int) == input@);
    }
    out
}

/// No character of an escaped text is one of `< > " '`.
pub open spec fn markup_free(s: Seq<char>) -> bool {
    forall|i: int| 0 <= i < s.len() ==> #[trigger] s[i] != '<' && s[i] != '>' && s[i] != '"' && s[i] != '\''
}

/// Sanitizing removes every `<`, `>`, `"` and `'`: whatever the input, the
/// output of `sanitize_string` holds none of them.
pub proof fn lemma_sanitized_is_markup_free(s: Seq<char>)
    ensures
        markup_free(html_escape(s)),
    decreases s.len(),
{
    reveal_strlit("&amp;");
    reveal_strlit("&lt;");
    reveal_strlit("&gt;");
    reveal_strlit("&quot;");
    reveal_strlit("&#x27;");
    if s.len() > 0 {
        lemma_sanitized_is_markup_free(s.drop_last());
        let a = html_escape(s.drop_last());
        let b = html_escape_char(s.last());
        assert(markup_free(b));
        assert forall|i: int| 0 <= i < (a + b).len() implies #[trigger] (a + b)[i] != '<' && (a + b)[i]
            != '>' && (a + b)[i] != '"' && (a + b)[i] != '\'' by {
            if i < a.len() {
                assert((a + b)[i] == a[i]);
            } else {
                assert((a + b)[i] == b[i - a.len()]);
            }
        }
    }
}

/// The meet IDs that are in use.
pub struct MeetIdRegistry {
    ids: Vec<String>,
}

impl View for MeetIdRegistry {
    type V = Set<Seq<char>>;

    closed spec fn view(&self) -> Set<Seq<char>> {
        Set::new(|s: Seq<char>| exists|i: int| 0 <= i < self.ids@.len() && #[trigger] self.ids@[i]@ == s)
    }
}

impl MeetIdRegistry {
    /// An empty registry.
    pub fn new() -> (r: Self)
        ensures
            r@ == Set::<Seq<char>>::empty(),
    {
        let r = MeetIdRegistry { ids: Vec::new() };
        assert(r@ =~= Set::<Seq<char>>::empty());
        r
    }
}

/// Whether no meet uses `meet_id` yet.
pub fn is_meet_id_unique(registry: &MeetIdRegistry, meet_id: &str) -> (b: bool)
    ensures
        b == !registry@.contains(meet_id@),
{
    let mut i: usize = 0;
    while i < registry.ids.len()
        invariant
            i <= registry.ids@.len(),
            forall|j: int| 0 <= j < i ==> #[trigger] registry.ids@[j]@ != meet_id@,
        decreases registry.ids@.len() - i,
    {
        if str_eq(registry.ids[i].as_str(), meet_id) {
            assert(registry.ids@[i as int]@ == meet_id@);
            return false;
        }
        i = i + 1;
    }
    true
}

/// Records `meet_id` as used.
pub fn register_meet_id(registry: &mut MeetIdRegistry, meet_id: &str)
    ensures
        final(registry)@ == old(registry)@.insert(meet_id@),
{
    let id = meet_id.to_owned();
    registry.ids.push(id);
    proof {
        let n = registry.ids@.len();
        assert(registry.ids@[n - 1]@ == meet_id@);
        assert forall|s: Seq<char>| #[trigger] final(registry)@.contains(s) == old(registry)@.insert(meet_id@).contains(s) by {
            if old(registry)@.contains(s) {
                let j = choose|j: int| 0 <= j < old(registry).ids@.len() && #[trigger] old(registry).ids@[j]@ == s;
                assert(registry.ids@[j]@ == s);
            }
            if final(registry)@.contains(s) && s != meet_id@ {
                let j = choose|j: int| 0 <= j < registry.ids@.len() && #[trigger] registry.ids@[j]@ == s;
                assert(j < n - 1);
                assert(old(registry).ids@[j]@ == s);
            }
        }
        assert(final(registry)@ =~= old(registry)@.insert(meet_id@));
    }
}

} // verus!

verus! {

/// How a meet ID is refused, if it is.
pub open spec fn meet_id_failure(s: Seq<char>) -> Option<Failure> {
    flagged("InvalidMeetId"@, "Invalid meet ID: "@, meet_id_problem(s))
}

/// How a password is refused, if it is.
pub open spec fn password_failure(s: Seq<char>) -> Option<Failure> {
    flagged("InvalidPassword"@, "Invalid password: "@, password_problem(s))
}

/// How a location name is refused, if it is.
pub open spec fn location_failure(s: Seq<char>) -> Option<Failure> {
    flagged("InvalidLocationName"@, "Invalid location name: "@, location_name_problem(s))
}

/// How a session token is refused, if it is.
pub open spec fn token_failure(s: Seq<char>) -> Option<Failure> {
    flagged("InvalidSessionToken"@, "Invalid session token: "@, session_token_problem(s))
}

/// How an e-mail address is refused, if it is.
pub open spec fn email_failure(s: Seq<char>) -> Option<Failure> {
    flagged("InvalidEmail"@, "Invalid email: "@, email_problem(s))
}

/// How an update is refused, if it is.
pub open spec fn update_failure(u: Update) -> Option<Failure> {
    flagged("InvalidUpdate"@, "Invalid update: "@, update_problem(u))
}

/// The first refused endpoint location, in order.
pub open spec fn endpoints_failure(eps: Seq<EndpointPriority>) -> Option<Failure>
    decreases eps.len(),
{
    if eps.len() == 0 {
        None
    } else {
        first_of(endpoints_failure(eps.drop_last()), location_failure(eps.last().location_name@))
    }
}

/// The first refused update, in order.
pub open spec fn updates_failure(us: Seq<Update>) -> Option<Failure>
    decreases us.len(),
{
    if us.len() == 0 {
        None
    } else {
        first_of(updates_failure(us.drop_last()), update_failure(us.last()))
    }
}

/// How a protocol message is refused: its fields are checked in order and the
/// first refusal is reported.
pub open spec fn client_message_failure(m: ClientToServer) -> Option<Failure> {
    match m {
        ClientToServer::CreateMeet { this_location_name, password, endpoints } => first_of(
            location_failure(this_location_name@),
            first_of(password_failure(password@), endpoints_failure(endpoints@)),
        ),
        ClientToServer::JoinMeet { meet_id, password, location_name } => first_of(
            meet_id_failure(meet_id@),
            first_of(password_failure(password@), location_failure(location_name@)),
        ),
        ClientToServer::UpdateInit { session_token, updates } => first_of(
            token_failure(session_token@),
            updates_failure(updates@),
        ),
        ClientToServer::ClientPull { session_token, .. } => token_failure(session_token@),
        ClientToServer::PublishMeet { session_token, return_email, opl_csv } => first_of(
            token_failure(session_token@),
            first_of(
                email_failure(return_email@),
                if opl_csv@.len() == 0 {
                    Some(("InvalidCsvData"@, "Invalid CSV data: "@, "CSV data must not be empty"@))
                } else {
                    None
                },
            ),
        ),
    }
}

fn validate_endpoints(endpoints: &Vec<EndpointPriority>) -> (res: ValidationResult<()>)
    ensures
        reports(res, endpoints_failure(endpoints@)),
{
    let mut i: usize = 0;
    while i < endpoints.len()
        invariant
            i <= endpoints@.len(),
            endpoints_failure(endpoints@.take(i as int)) is None,
        decreases endpoints@.len() - i,
    {
        let r = validate_location_name(endpoints[i].location_name.as_str());
        assert(endpoints@.take(i + 1).drop_last() == endpoints@.take(i as int));
        match r {
            Err(e) => {
                proof {
                    lemma_first_failure_sticks_endpoints(endpoints@, i as int + 1);
                }
                assert(endpoints@.take(endpoints@.len() as int) == endpoints@);
                return Err(e);
            },
            Ok(_) => {},
        }
        i = i + 1;
    }
    assert(endpoints@.take(endpoints@.len() as int) == endpoints@);
    Ok(())
}

proof fn lemma_first_failure_sticks_endpoints(eps: Seq<EndpointPriority>, k: int)
    requires
        0 < k <= eps.len(),
        endpoints_failure(eps.take(k)) is Some,
    ensures
        endpoints_failure(eps) == endpoints_failure(eps.take(k)),
    decreases eps.len() - k,
{
    if k < eps.len() {
        assert(eps.take(k + 1).drop_last() == eps.take(k));
        assert(endpoints_failure(eps.take(k + 1)) == endpoints_failure(eps.take(k)));
        lemma_first_failure_sticks_endpoints(eps, k + 1);
    } else {
        assert(eps.take(k) == eps);
    }
}

proof fn lemma_first_failure_sticks_updates(us: Seq<Update>, k: int)
    requires
        0 < k <= us.len(),
        updates_failure(us.take(k)) is Some,
    ensures
        updates_failure(us) == updates_failure(us.take(k)),
    decreases us.len() - k,
{
    if k < us.len() {
        assert(us.take(k + 1).drop_last() == us.take(k));
        assert(updates_failure(us.take(k + 1)) == updates_failure(us.take(k)));
        lemma_first_failure_sticks_updates(us, k + 1);
    } else {
        assert(us.take(k) == us);
    }
}

fn validate_updates(updates: &Vec<Update>) -> (res: ValidationResult<()>)
    ensures
        reports(res, updates_failure(updates@)),
{
    let mut i: usize = 0;
    while i < updates.len()
        invariant
            i <= updates@.len(),
            updates_failure(updates@.take(i as int)) is None,
        decreases updates@.len() - i,
    {
        let r = validate_update(&updates[i]);
        assert(updates@.take(i + 1).drop_last() == updates@.take(i as int));
        match r {
            Err(e) => {
                proof {
                    lemma_first_failure_sticks_updates(updates@, i as int + 1);
                }
                assert(updates@.take(updates@.len() as int) == updates@);
                return Err(e);
            },
            Ok(_) => {},
        }
        i = i + 1;
    }
    assert(updates@.take(updates@.len() as int) == updates@);
    Ok(())
}

/// Validates every field of a protocol message; the first refusal is returned.
pub fn validate_client_message(message: &ClientToServer) -> (res: ValidationResult<()>)
    ensures
        reports(res, client_message_failure(*message)),
{
    match message {
        ClientToServer::CreateMeet { this_location_name, password, endpoints } => {
            validate_location_name(this_location_name.as_str())?;
            validate_password(password.as_str())?;
            validate_endpoints(endpoints)
        },
        ClientToServer::JoinMeet { meet_id, password, location_name } => {
            validate_meet_id(meet_id.as_str())?;
            validate_password(password.as_str())?;
            validate_location_name(location_name.as_str())?;
            Ok(())
        },
        ClientToServer::UpdateInit { session_token, updates } => {
            validate_session_token(session_token.as_str())?;
            validate_updates(updates)
        },
        ClientToServer::ClientPull { session_token, .. } => {
            validate_session_token(session_token.as_str())?;
            Ok(())
        },
        ClientToServer::PublishMeet { session_token, return_email, opl_csv } => {
            validate_session_token(session_token.as_str())?;
            validate_email(return_email.as_str())?;
            if opl_csv.as_str().is_empty() {
                return Err(ValidationError::InvalidCsvData("CSV data must not be empty".to_string()));
            }
            Ok(())
        },
    }
}

/// A publication with no CSV data is always refused. When its session token
/// and e-mail address pass their checks, the refusal is `InvalidCsvData`
/// saying that the CSV data must not be empty: whatever `res`
/// `validate_client_message` answers for such a message is that error.
pub proof fn lemma_empty_csv_refused(session_token: String, return_email: String, opl_csv: String, res: ValidationResult<()>)
    requires
        opl_csv@.len() == 0,
        reports(res, client_message_failure(ClientToServer::PublishMeet { session_token, return_email, opl_csv })),
    ensures
        res is Err,
        session_token_problem(session_token@) is None && email_problem(return_email@) is None ==> (res matches Err(
            ValidationError::InvalidCsvData(m),
        ) && m@ == "CSV data must not be empty"@),
{
    reveal_strlit("InvalidMeetId");
    reveal_strlit("InvalidPassword");
    reveal_strlit("InvalidLocationName");
    reveal_strlit("InvalidSessionToken");
    reveal_strlit("InvalidUpdate");
    reveal_strlit("InvalidEmail");
    reveal_strlit("InvalidCsvData");
    reveal_strlit("MeetIdExists");
    if session_token_problem(session_token@) is None && email_problem(return_email@) is None {
        let e = res->Err_0;
        assert(error_kind_name(e) == "InvalidCsvData"@);
        assert(e is InvalidCsvData) by {
            assert("InvalidCsvData"@.len() == 14);
            match e {
                ValidationError::InvalidCsvData(_) => {},
                ValidationError::InvalidMeetId(_) => assert("InvalidMeetId"@.len() == 13),
                ValidationError::InvalidPassword(_) => assert("InvalidPassword"@.len() == 15),
                ValidationError::InvalidLocationName(_) => assert("InvalidLocationName"@.len() == 19),
                ValidationError::InvalidSessionToken(_) => assert("InvalidSessionToken"@.len() == 19),
                ValidationError::InvalidUpdate(_) => assert("InvalidUpdate"@.len() == 13),
                ValidationError::InvalidEmail(_) => assert("InvalidEmail"@.len() == 12),
                ValidationError::MeetIdExists(_) => assert("MeetIdExists"@.len() == 12),
            }
        }
    }
}

} // verus!
