use vstd::prelude::*;
use vstd::string::StringExecFns;

use crate::response::{dec_str, u16_to_dec, Response};
use anyhow::Error as AnyhowError;
use sqlx::Error as SqlxError;

verus! {

/// A common error type for all request handlers.
///
/// Each variant is rendered to the client as a uniform JSON body with a
/// fixed title and message and the HTTP status code of the variant; see
/// [`Error::into_response`]. Failures coming from the database layer or
/// from other internal sources carry their cause only for logging: the
/// cause never reaches the client.
pub enum Error {
    /// Return `404 Not Found`
    NotFound,
    /// Return `422 Unprocessable Entity`
    UnprocessableEntity,
    /// Return `400 Bad Request`, carrying field-level validation messages:
    /// each field name maps to the list of its violation messages, in
    /// insertion order.
    BadRequest { errors: Vec<(String, Vec<String>)> },
    /// Return `403 Forbidden`
    Forbidden,
    /// Return `401 Unauthorized`; the response also carries a
    /// `WWW-Authenticate: Token` header.
    Unauthorized,
    /// Return `500 Internal Server Error` for a failure raised by the
    /// database layer. `constraint` holds the name of the violated
    /// constraint when the database reported one, so that a handler can
    /// remap the failure to a client error; `cause` is the database
    /// driver's own description, kept for logging only.
    Sqlx { constraint: Option<String>, cause: String },
    /// Return `500 Internal Server Error` for any other internal failure;
    /// `cause` is kept for logging only.
    Anyhow { cause: String },
}

/// The HTTP status code of each variant.
pub open spec fn status_of(e: Error) -> int {
    match e {
        Error::NotFound => 404,
        Error::UnprocessableEntity => 422,
        Error::BadRequest { .. } => 400,
        Error::Forbidden => 403,
        Error::Unauthorized => 401,
        Error::Sqlx { .. } => 500,
        Error::Anyhow { .. } => 500,
    }
}

/// The fixed, human-readable title of each variant.
pub open spec fn title_of(e: Error) -> Seq<char> {
    match e {
        Error::NotFound => "Not Found"@,
        Error::UnprocessableEntity => "Unprocessable Entity"@,
        Error::BadRequest { .. } => "Bad Request"@,
        Error::Forbidden => "Forbidden"@,
        Error::Unauthorized => "Unauthorized"@,
        Error::Sqlx { .. } => "Internal Server Error"@,
        Error::Anyhow { .. } => "Internal Server Error"@,
    }
}

/// The fixed, client-visible message of each variant. The underlying
/// cause of a database or internal failure is deliberately not part of
/// it, so that no internal detail is disclosed to the client.
pub open spec fn message_of(e: Error) -> Seq<char> {
    match e {
        Error::NotFound => "request path not found"@,
        Error::UnprocessableEntity => ""@,
        Error::BadRequest { .. } => "error in the request body"@,
        Error::Forbidden => "user may not have access rights to the content"@,
        Error::Unauthorized => "authorization required"@,
        Error::Sqlx { .. } => "an error occurred with the database"@,
        Error::Anyhow { .. } => "an internal server error has occurred"@,
    }
}

/// The field-error map that a sequence of (field, message) pairs folds
/// into: fields appear in order of first occurrence, and each field maps
/// to all of its messages, in the order they were given (later messages
/// for the same field append, they never overwrite earlier ones).
pub open spec fn fold_pairs(pairs: Seq<(Seq<char>, Seq<char>)>) -> Seq<(Seq<char>, Seq<Seq<char>>)>
    decreases pairs.len(),
{
    if pairs.len() == 0 {
        Seq::empty()
    } else {
        insert_message(fold_pairs(pairs.drop_last()), pairs.last().0, pairs.last().1)
    }
}

/// One folding step: the message `v` joins the end of field `k`'s list
/// if `k` is already present, and otherwise opens a new trailing entry.
pub open spec fn insert_message(
    m: Seq<(Seq<char>, Seq<Seq<char>>)>,
    k: Seq<char>,
    v: Seq<char>,
) -> Seq<(Seq<char>, Seq<Seq<char>>)>
    decreases m.len(),
{
    if m.len() == 0 {
        seq![(k, seq![v])]
    } else if m[0].0 == k {
        seq![(m[0].0, m[0].1.push(v))] + m.skip(1)
    } else {
        seq![m[0]] + insert_message(m.skip(1), k, v)
    }
}

/// Whether no field occurs twice in a field-error map.
pub open spec fn unique_fields(m: Seq<(Seq<char>, Seq<Seq<char>>)>) -> bool {
    forall|a: int, b: int| 0 <= a < b < m.len() ==> m[a].0 != m[b].0
}

proof fn lemma_insert_message_fields(
    m: Seq<(Seq<char>, Seq<Seq<char>>)>,
    k: Seq<char>,
    v: Seq<char>,
)
    ensures
        forall|t: int|
            0 <= t < insert_message(m, k, v).len() ==> (#[trigger] insert_message(m, k, v)[t].0
                == k || exists|u: int| 0 <= u < m.len() && m[u].0 == insert_message(m, k, v)[t].0),
    decreases m.len(),
{
    let ins = insert_message(m, k, v);
    if m.len() == 0 {
        assert(ins[0].0 == k);
    } else if m[0].0 == k {
        assert forall|t: int| 0 <= t < ins.len() implies (#[trigger] ins[t].0 == k
            || exists|u: int| 0 <= u < m.len() && m[u].0 == ins[t].0) by {
            if t == 0 {
                assert(ins[0].0 == k);
            } else {
                assert(m[t].0 == ins[t].0);
            }
        }
    } else {
        lemma_insert_message_fields(m.skip(1), k, v);
        let ins2 = insert_message(m.skip(1), k, v);
        assert forall|t: int| 0 <= t < ins.len() implies (#[trigger] ins[t].0 == k
            || exists|u: int| 0 <= u < m.len() && m[u].0 == ins[t].0) by {
            if t == 0 {
                assert(m[0].0 == ins[0].0);
            } else {
                assert(ins[t] == ins2[t - 1]);
                if ins2[t - 1].0 != k {
                    let u = choose|u: int|
                        0 <= u < m.skip(1).len() && m.skip(1)[u].0 == ins2[t - 1].0;
                    assert(m[u + 1].0 == ins[t].0);
                }
            }
        }
    }
}

proof fn lemma_insert_message_unique(
    m: Seq<(Seq<char>, Seq<Seq<char>>)>,
    k: Seq<char>,
    v: Seq<char>,
)
    requires
        unique_fields(m),
    ensures
        unique_fields(insert_message(m, k, v)),
    decreases m.len(),
{
    let ins = insert_message(m, k, v);
    if m.len() == 0 {
    } else if m[0].0 == k {
        assert forall|a: int, b: int| 0 <= a < b < ins.len() implies #[trigger] ins[a].0
            != #[trigger] ins[b].0 by {
            assert(ins[b] == m[b]);
            assert(m[a].0 != m[b].0);
        }
    } else {
        assert forall|a: int, b: int| 0 <= a < b < m.skip(1).len() implies #[trigger] m.skip(
            1,
        )[a].0 != #[trigger] m.skip(1)[b].0 by {
            assert(m.skip(1)[a] == m[a + 1]);
            assert(m.skip(1)[b] == m[b + 1]);
            assert(m[a + 1].0 != m[b + 1].0);
        }
        lemma_insert_message_unique(m.skip(1), k, v);
        lemma_insert_message_fields(m.skip(1), k, v);
        let ins2 = insert_message(m.skip(1), k, v);
        assert forall|t: int| 0 <= t < ins2.len() implies #[trigger] ins2[t].0 != m[0].0 by {
            if ins2[t].0 != k {
                let u = choose|u: int| 0 <= u < m.skip(1).len() && m.skip(1)[u].0 == ins2[t].0;
                assert(m.skip(1)[u] == m[u + 1]);
                assert(m[0].0 != m[u + 1].0);
            }
        }
        assert forall|a: int, b: int| 0 <= a < b < ins.len() implies #[trigger] ins[a].0
            != #[trigger] ins[b].0 by {
            assert(ins[b] == ins2[b - 1]);
            if a == 0 {
                assert(ins2[b - 1].0 != m[0].0);
            } else {
                assert(ins[a] == ins2[a - 1]);
                assert(ins2[a - 1].0 != ins2[b - 1].0);
            }
        }
    }
}

/// A folded field-error map is really a map: no field occurs twice,
/// however often the pairs it was folded from repeat their fields.
pub proof fn lemma_fold_pairs_fields_unique(pairs: Seq<(Seq<char>, Seq<char>)>)
    ensures
        unique_fields(fold_pairs(pairs)),
    decreases pairs.len(),
{
    if pairs.len() > 0 {
        lemma_fold_pairs_fields_unique(pairs.drop_last());
        lemma_insert_message_unique(
            fold_pairs(pairs.drop_last()),
            pairs.last().0,
            pairs.last().1,
        );
    }
}

proof fn lemma_insert_message_found(
    m: Seq<(Seq<char>, Seq<Seq<char>>)>,
    k: Seq<char>,
    v: Seq<char>,
    i: int,
)
    requires
        0 <= i < m.len(),
        m[i].0 == k,
        forall|j: int| 0 <= j < i ==> m[j].0 != k,
    ensures
        insert_message(m, k, v) == m.update(i, (m[i].0, m[i].1.push(v))),
    decreases i,
{
    if i == 0 {
        assert(insert_message(m, k, v) =~= m.update(0, (m[0].0, m[0].1.push(v))));
    } else {
        assert(forall|j: int| 0 <= j < i - 1 ==> m.skip(1)[j].0 != k);
        lemma_insert_message_found(m.skip(1), k, v, i - 1);
        assert(insert_message(m, k, v) =~= m.update(i, (m[i].0, m[i].1.push(v))));
    }
}

proof fn lemma_insert_message_absent(
    m: Seq<(Seq<char>, Seq<Seq<char>>)>,
    k: Seq<char>,
    v: Seq<char>,
)
    requires
        forall|j: int| 0 <= j < m.len() ==> m[j].0 != k,
    ensures
        insert_message(m, k, v) == m.push((k, seq![v])),
    decreases m.len(),
{
    if m.len() == 0 {
        assert(insert_message(m, k, v) =~= m.push((k, seq![v])));
    } else {
        lemma_insert_message_absent(m.skip(1), k, v);
        assert(insert_message(m, k, v) =~= m.push((k, seq![v])));
    }
}

/// The index of the entry for field `key`, if the map has one.
fn find_field(map: &Vec<(String, Vec<String>)>, key: &String) -> (r: Option<usize>)
    ensures
        match r {
            Some(j) => {
                &&& j < map.len()
                &&& map.deep_view()[j as int].0 == key@
                &&& forall|t: int| 0 <= t < j ==> map.deep_view()[t].0 != key@
            },
            None => forall|t: int| 0 <= t < map.len() ==> map.deep_view()[t].0 != key@,
        },
{
    let mut j: usize = 0;
    while j < map.len()
        invariant
            j <= map.len(),
            forall|t: int| 0 <= t < j ==> map.deep_view()[t].0 != key@,
        decreases map.len() - j,
    {
        if map[j].0 == *key {
            return Some(j);
        }
        j = j + 1;
    }
    None
}

impl Error {
    /// Folds a list of (field, message) pairs into a `BadRequest` whose
    /// field-error map keeps every message: repeated fields accumulate
    /// their messages in order instead of overwriting one another.
    pub fn bad_request(errors: Vec<(String, String)>) -> (e: Error)
        ensures
            (e matches Error::BadRequest { errors: m }
                && m.deep_view() == fold_pairs(errors.deep_view())),
    {
        let mut map: Vec<(String, Vec<String>)> = Vec::new();
        let mut i: usize = 0;
        assert(map.deep_view() =~= fold_pairs(errors.deep_view().take(0)));
        while i < errors.len()
            invariant
                i <= errors.len(),
                map.deep_view() == fold_pairs(errors.deep_view().take(i as int)),
            decreases errors.len() - i,
        {
            let key = errors[i].0.clone();
            let val = errors[i].1.clone();
            let ghost dv0 = map.deep_view();
            match find_field(&map, &key) {
                Some(j) => {
                    let mut entry = map.remove(j);
                    entry.1.push(val);
                    map.insert(j, entry);
                    proof {
                        lemma_insert_message_found(dv0, key@, val@, j as int);
                        assert(map.deep_view() =~~= dv0.update(
                            j as int,
                            (dv0[j as int].0, dv0[j as int].1.push(val@)),
                        ));
                    }
                },
                None => {
                    let mut msgs: Vec<String> = Vec::new();
                    msgs.push(val);
                    map.push((key, msgs));
                    proof {
                        lemma_insert_message_absent(dv0, key@, val@);
                        assert(map.deep_view() =~~= dv0.push((key@, seq![val@])));
                    }
                },
            }
            proof {
                let pre = errors.deep_view().take(i as int);
                let post = errors.deep_view().take(i + 1int);
                assert(post.drop_last() =~= pre);
                assert(post.last() == errors.deep_view()[i as int]);
            }
            i = i + 1;
        }
        proof {
            assert(errors.deep_view().take(errors.len() as int) =~= errors.deep_view());
        }
        Error::BadRequest { errors: map }
    }

    /// The HTTP status code this error is rendered with.
    pub fn status_code(&self) -> (s: u16)
        ensures
            s as int == status_of(*self),
    {
        match self {
            Error::NotFound => 404,
            Error::UnprocessableEntity => 422,
            Error::Forbidden => 403,
            Error::Unauthorized => 401,
            Error::BadRequest { .. } => 400,
            _ => 500,
        }
    }

    /// The fixed title this error is rendered with.
    pub fn title(&self) -> (t: String)
        ensures
            t@ == title_of(*self),
    {
        match self {
            Error::Unauthorized => "Unauthorized",
            Error::BadRequest { .. } => "Bad Request",
            Error::UnprocessableEntity => "Unprocessable Entity",
            Error::Forbidden => "Forbidden",
            Error::NotFound => "Not Found",
            _ => "Internal Server Error",
        }.to_owned()
    }

    /// The fixed, client-visible message this error is rendered with.
    pub fn message(&self) -> (m: String)
        ensures
            m@ == message_of(*self),
    {
        match self {
            Error::NotFound => "request path not found",
            Error::UnprocessableEntity => "",
            Error::BadRequest { .. } => "error in the request body",
            Error::Forbidden => "user may not have access rights to the content",
            Error::Unauthorized => "authorization required",
            Error::Sqlx { .. } => "an error occurred with the database",
            Error::Anyhow { .. } => "an internal server error has occurred",
        }.to_owned()
    }
}

/// Whether `e` is a database failure that reports a violation of the
/// constraint called `name`.
pub open spec fn names_constraint(e: Error, name: Seq<char>) -> bool {
    e matches Error::Sqlx { constraint: Some(c), .. } && c@ == name
}

/// What remapping a constraint failure hands back: the replacement
/// exactly when the error is a database failure on the named
/// constraint, and the original error unchanged otherwise.
pub open spec fn remap_constraint_spec(e: Error, name: Seq<char>, replacement: Error) -> Error {
    if names_constraint(e, name) {
        replacement
    } else {
        e
    }
}

/// Lifts [`remap_constraint_spec`] over a `Result`: a success passes
/// through unchanged.
pub open spec fn remap_result_spec<T>(
    r: Result<T, Error>,
    name: Seq<char>,
    replacement: Error,
) -> Result<T, Error> {
    match r {
        Ok(v) => Ok(v),
        Err(e) => Err(remap_constraint_spec(e, name, replacement)),
    }
}

/// The JSON object a response body is made of: exactly the three fields
/// `title`, `status` and `message`, in that order.
pub open spec fn json_body(title: Seq<char>, status: int, message: Seq<char>) -> Seq<char> {
    "{\"title\":\""@ + title + "\",\"status\":"@ + dec_str(status) + ",\"message\":\""@ + message
        + "\"}"@
}

/// The headers of each variant's response: `Unauthorized` alone carries
/// one, `WWW-Authenticate: Token`.
pub open spec fn headers_of(e: Error) -> Seq<(Seq<char>, Seq<char>)> {
    if e is Unauthorized {
        seq![("WWW-Authenticate"@, "Token"@)]
    } else {
        Seq::empty()
    }
}

/// The three client-visible fields of an error response body.
pub struct ErrorBody {
    pub title: String,
    pub status: u16,
    pub message: String,
}

impl ErrorBody {
    /// The body an error is rendered with: the variant's fixed title and
    /// message and its status code. The field-error map of `BadRequest`
    /// and the cause of a database or internal failure are not part of
    /// it: the client sees the fixed strings only.
    pub fn from(error: Error) -> (b: ErrorBody)
        ensures
            b.title@ == title_of(error),
            b.status as int == status_of(error),
            b.message@ == message_of(error),
    {
        ErrorBody { title: error.title(), status: error.status_code(), message: error.message() }
    }

    /// Writes the body out as a JSON object with exactly the three
    /// fields `title`, `status` and `message`.
    pub fn to_json(&self) -> (s: String)
        ensures
            s@ == json_body(self.title@, self.status as int, self.message@),
    {
        let mut s = "{\"title\":\"".to_owned();
        s.append(self.title.as_str());
        s.append("\",\"status\":");
        s.append(u16_to_dec(self.status).as_str());
        s.append(",\"message\":\"");
        s.append(self.message.as_str());
        s.append("\"}");
        proof {
            assert(s@ =~= json_body(self.title@, self.status as int, self.message@));
        }
        s
    }
}

impl Error {
    /// Renders this error as an HTTP response: the variant's status
    /// code, the `WWW-Authenticate: Token` header if and only if the
    /// variant is `Unauthorized`, and the three-field JSON body.
    pub fn into_response(self) -> (r: Response)
        ensures
            r.status as int == status_of(self),
            r.headers.deep_view() == headers_of(self),
            r.body@ == json_body(title_of(self), status_of(self), message_of(self)),
    {
        let ghost e0 = self;
        let b = ErrorBody::from(self);
        let status = b.status;
        let mut headers: Vec<(String, String)> = Vec::new();
        if status == 401 {
            headers.push(("WWW-Authenticate".to_owned(), "Token".to_owned()));
        }
        let body = b.to_json();
        proof {
            assert(headers.deep_view() =~~= headers_of(e0));
        }
        Response { status, headers, body }
    }

    /// If this is a database failure that reports a violation of the
    /// constraint called `name`, hands back `replacement`; any other
    /// error passes through unchanged.
    pub fn remap_constraint(self, name: &str, replacement: Error) -> (r: Error)
        ensures
            r == remap_constraint_spec(self, name@, replacement),
    {
        match self {
            Error::Sqlx { constraint, cause } => match constraint {
                Some(c) => {
                    if c == name.to_owned() {
                        replacement
                    } else {
                        Error::Sqlx { constraint: Some(c), cause }
                    }
                },
                None => Error::Sqlx { constraint: None, cause },
            },
            e => e,
        }
    }
}

/// A helper for more easily converting database constraint failures
/// into client errors at the call site of a query, without hand-coding
/// database error inspection in every handler.
pub trait ResultExt<T>: Sized {
    /// The `Result` this value stands for.
    spec fn result_spec(self) -> Result<T, Error>;

    /// If `self` failed with a database error that reports a violation
    /// of the constraint called `name`, the failure becomes
    /// `replacement`; otherwise the result passes through unchanged.
    fn on_constraint(self, name: &str, replacement: Error) -> (r: Result<T, Error>)
        ensures
            r == remap_result_spec(self.result_spec(), name@, replacement),
    ;
}

impl<T> ResultExt<T> for Result<T, Error> {
    open spec fn result_spec(self) -> Result<T, Error> {
        self
    }

    fn on_constraint(self, name: &str, replacement: Error) -> (r: Result<T, Error>) {
        match self {
            Ok(v) => Ok(v),
            Err(e) => Err(e.remap_constraint(name, replacement)),
        }
    }
}

#[verifier::external_type_specification]
#[verifier::external_body]
pub struct ExSqlxError(SqlxError);

#[verifier::external_type_specification]
#[verifier::external_body]
pub struct ExAnyhowError(AnyhowError);

impl Error {
    /// Turns a failure of the database layer into the `Sqlx` variant.
    /// Relies on `sqlx::Error::as_database_error` to tell an error the
    /// database returned from every other failure, on sqlx's
    /// `DatabaseError::constraint` for the name of the violated
    /// constraint (reported only when the database named one), and on
    /// the error's `Display` for the logged cause.
    #[verifier::external_body]
    pub fn from_sqlx(error: SqlxError) -> (e: Error)
        ensures
            e is Sqlx,
    {
        let constraint = match error.as_database_error() {
            Some(dbe) => match dbe.constraint() {
                Some(name) => Some(name.to_string()),
                None => None,
            },
            None => None,
        };
        Error::Sqlx { constraint, cause: error.to_string() }
    }

    /// Turns any other internal failure into the `Anyhow` variant.
    /// Relies on `anyhow::Error`'s `Display` for the logged cause.
    #[verifier::external_body]
    pub fn from_anyhow(error: AnyhowError) -> (e: Error)
        ensures
            e is Anyhow,
    {
        Error::Anyhow { cause: error.to_string() }
    }
}

/// Every error is rendered as a JSON object with exactly the three
/// fields `title`, `status` and `message`, and `status` carries the
/// documented code of its variant.
pub proof fn lemma_rendered_body(e: Error)
    ensures
        json_body(title_of(e), status_of(e), message_of(e)) == "{\"title\":\""@ + title_of(e)
            + "\",\"status\":"@ + dec_str(status_of(e)) + ",\"message\":\""@ + message_of(e)
            + "\"}"@,
        e is NotFound ==> status_of(e) == 404,
        e is UnprocessableEntity ==> status_of(e) == 422,
        e is BadRequest ==> status_of(e) == 400,
        e is Forbidden ==> status_of(e) == 403,
        e is Unauthorized ==> status_of(e) == 401,
        e is Sqlx ==> status_of(e) == 500,
        e is Anyhow ==> status_of(e) == 500,
{
}

/// `Unauthorized` responses alone carry the `WWW-Authenticate: Token`
/// header; the response of every other variant carries no header.
pub proof fn lemma_unauthorized_header(e: Error)
    ensures
        e is Unauthorized ==> headers_of(e) == seq![("WWW-Authenticate"@, "Token"@)],
        e !is Unauthorized ==> headers_of(e) == Seq::<(Seq<char>, Seq<char>)>::empty(),
{
}

/// Remapping a constraint failure: a database error that names exactly
/// the given constraint becomes the replacement; a database error that
/// names another constraint or none, and every other error, passes
/// through unchanged, as does a success.
pub proof fn lemma_on_constraint<T>(r: Result<T, Error>, name: Seq<char>, replacement: Error)
    ensures
        (r matches Err(e) && names_constraint(e, name)) ==> remap_result_spec(r, name, replacement)
            == Err::<T, Error>(replacement),
        (r matches Err(e) && !names_constraint(e, name)) ==> remap_result_spec(
            r,
            name,
            replacement,
        ) == r,
        r is Ok ==> remap_result_spec(r, name, replacement) == r,
{
}

} // verus!
