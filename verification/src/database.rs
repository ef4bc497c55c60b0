use vstd::prelude::*;

use crate::config::DatabaseConfig;
use crate::message::{decimal, decimal_string, string_push};

verus! {

/// A connection profile for the SQL Server instance that queries run against.
pub struct Database {
    config: DatabaseConfig,
}

/// How the connection to the server logs in.
#[derive(Debug, Clone, Copy, PartialEq, Eq, Structural)]
pub enum LoginMethod {
    /// SQL Server authentication with the configured user and password.
    SqlServer,
    /// Windows (integrated) authentication with the identity of the running user.
    Integrated,
    /// No login method is set.
    NoLogin,
}

/// The rows that a query returned, every value rendered as text.
#[derive(Debug, Clone)]
pub struct QueryResult {
    pub columns: Vec<String>,
    pub rows: Vec<Vec<String>>,
    pub row_count: usize,
}

impl QueryResult {
    /// A result holds as many rows as its count says.
    pub open spec fn wf(&self) -> bool {
        self.row_count == self.rows.len()
    }

    /// Builds the result of a query from its column names and its rows.
    pub fn from_rows(columns: Vec<String>, rows: Vec<Vec<String>>) -> (r: QueryResult)
        ensures
            r.columns == columns,
            r.rows == rows,
            r.row_count == rows.len(),
            r.wf(),
    {
        let row_count = rows.len();
        QueryResult { columns, rows, row_count }
    }
}

/// The part of `t` before the first occurrence of `sep`, or all of `t` if `sep` does not occur.
pub open spec fn before_first(t: Seq<char>, sep: char) -> Seq<char>
    decreases t.len(),
{
    if t.len() == 0 {
        Seq::<char>::empty()
    } else if t[0] == sep {
        Seq::<char>::empty()
    } else {
        seq![t[0]] + before_first(t.drop_first(), sep)
    }
}

proof fn lemma_before_first_prefix(t: Seq<char>, sep: char, i: int)
    requires
        0 <= i <= t.len(),
        forall|j: int| 0 <= j < i ==> t[j] != sep,
    ensures
        before_first(t, sep) == t.take(i) + before_first(t.skip(i), sep),
    decreases i,
{
    if i == 0 {
        assert(t.skip(0) =~= t);
        assert(t.take(0) =~= Seq::<char>::empty());
        assert(t.take(0) + before_first(t, sep) =~= before_first(t, sep));
    } else {
        let r = t.drop_first();
        lemma_before_first_prefix(r, sep, i - 1);
        assert(r.skip(i - 1) =~= t.skip(i));
        assert(t.take(i) =~= seq![t[0]] + r.take(i - 1));
        assert(seq![t[0]] + (r.take(i - 1) + before_first(t.skip(i), sep)) =~= t.take(i)
            + before_first(t.skip(i), sep));
    }
}

/// The part before the first separator is a prefix of the text holding no separator, and it is
/// either the whole text or followed by the separator.
pub proof fn law_before_first_is_prefix(t: Seq<char>, sep: char)
    ensures
        before_first(t, sep).len() <= t.len(),
        before_first(t, sep) == t.take(before_first(t, sep).len() as int),
        forall|i: int| 0 <= i < before_first(t, sep).len() ==> #[trigger] t[i] != sep,
        before_first(t, sep).len() < t.len() ==> t[before_first(t, sep).len() as int] == sep,
    decreases t.len(),
{
    if t.len() > 0 && t[0] != sep {
        let r = t.drop_first();
        law_before_first_is_prefix(r, sep);
        let b = before_first(r, sep);
        assert(before_first(t, sep) =~= seq![t[0]] + b);
        assert(t.take(b.len() + 1int) =~= seq![t[0]] + r.take(b.len() as int));
        assert forall|i: int| 0 <= i < before_first(t, sep).len() implies #[trigger] t[i] != sep by {
            if i > 0 {
                assert(t[i] == r[i - 1]);
            }
        }
        if b.len() < r.len() {
            assert(t[b.len() + 1int] == r[b.len() as int]);
        }
    } else {
        assert(t.take(0) =~= Seq::<char>::empty());
    }
}

/// The part of `s` before the first occurrence of `sep`, or all of `s`.
pub fn text_before(s: &str, sep: char) -> (r: String)
    ensures
        r@ == before_first(s@, sep),
{
    let ghost t = s@;
    let mut out = String::new();
    let mut stopped = false;
    for ch in it: s.chars()
        invariant
            t == s@,
            it.seq() == t,
            !stopped ==> out@ == t.take(it.index()),
            !stopped ==> forall|j: int| 0 <= j < it.index() ==> t[j] != sep,
            stopped ==> out@ == before_first(t, sep),
    {
        let ghost i = it.index();
        if !stopped {
            if ch == sep {
                proof {
                    lemma_before_first_prefix(t, sep, i);
                    assert(t.skip(i)[0] == sep);
                    assert(out@ + Seq::<char>::empty() =~= out@);
                }
                stopped = true;
            } else {
                string_push(&mut out, ch);
                proof {
                    assert(out@ =~= t.take(i + 1));
                }
            }
        }
    }
    proof {
        if !stopped {
            assert(t.take(t.len() as int) =~= t);
            lemma_before_first_prefix(t, sep, t.len() as int);
            assert(t.skip(t.len() as int) =~= Seq::<char>::empty());
            assert(t + Seq::<char>::empty() =~= t);
        }
    }
    out
}

impl Database {
    /// The connection profile.
    pub closed spec fn spec_config(&self) -> DatabaseConfig {
        self.config
    }

    /// A profile for the given settings.
    pub fn new(config: DatabaseConfig) -> (db: Database)
        ensures
            db.spec_config() == config,
    {
        Database { config }
    }

    /// The connection profile.
    pub fn config(&self) -> (c: &DatabaseConfig)
        ensures
            *c == self.spec_config(),
    {
        &self.config
    }

    /// The host to connect to: the server name up to an instance separator `\`.
    pub open spec fn spec_host_name(&self) -> Seq<char> {
        before_first(self.spec_config().server@, '\\')
    }

    /// The host to connect to: the server name up to an instance separator `\`.
    pub fn host_name(&self) -> (h: String)
        ensures
            h@ == self.spec_host_name(),
    {
        text_before(self.config.server.as_str(), '\\')
    }

    /// The `host:port` address that the TCP connection goes to.
    pub fn address(&self) -> (a: String)
        ensures
            a@ == self.spec_host_name() + seq![':'] + decimal(self.spec_config().port as nat),
    {
        let mut a = self.host_name();
        string_push(&mut a, ':');
        let port = decimal_string(self.config.port as usize);
        a.append(port.as_str());
        a
    }

    /// How the connection logs in: with the configured user and password when a user name is
    /// given, else with the Windows identity when a trusted connection is asked for, else not
    /// at all.
    pub open spec fn spec_login_method(&self) -> LoginMethod {
        if self.spec_config().user@.len() > 0 {
            LoginMethod::SqlServer
        } else if self.spec_config().trusted_connection {
            LoginMethod::Integrated
        } else {
            LoginMethod::NoLogin
        }
    }

    /// How the connection logs in.
    pub fn login_method(&self) -> (m: LoginMethod)
        ensures
            m == self.spec_login_method(),
    {
        if !self.config.user.as_str().is_empty() {
            LoginMethod::SqlServer
        } else if self.config.trusted_connection {
            LoginMethod::Integrated
        } else {
            LoginMethod::NoLogin
        }
    }

    /// Whether the server's certificate is accepted without checking it.
    pub fn trusts_server_certificate(&self) -> (b: bool)
        ensures
            b == self.spec_config().trust_server_certificate,
    {
        self.config.trust_server_certificate
    }
}

} // verus!
