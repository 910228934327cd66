//! The repository registry: statuses, the fields of a new entry, and the
//! SQL that lists and finds entries.
use vstd::prelude::*;
use crate::text::{concat2, concat3, has_prefix, has_suffix, owned, str_eq, views};

verus! {

broadcast use vstd::string::group_string_axioms;

/// Why a stored value could not be read.
#[derive(Debug, Clone, PartialEq, Eq)]
pub enum DbError {
    /// A status other than `active` or `archived`.
    UnknownStatus { status: String },
}

impl DbError {
    /// The human-readable text of the error.
    pub fn message(&self) -> (r: String)
        ensures
            r@ == match self {
                DbError::UnknownStatus { status } => "Unknown repo status: "@ + status@,
            },
    {
        match self {
            DbError::UnknownStatus { status } => concat2("Unknown repo status: ", status.as_str()),
        }
    }
}

/// Whether a tracked repository is in use.
#[derive(Debug, Clone, Copy, PartialEq, Eq, Structural)]
pub enum RepoStatus {
    Active,
    Archived,
}

/// The stored name of a status.
pub open spec fn status_name(s: RepoStatus) -> Seq<char> {
    match s {
        RepoStatus::Active => "active"@,
        RepoStatus::Archived => "archived"@,
    }
}

/// The status stored as `s`, if any.
pub open spec fn status_from_name(s: Seq<char>) -> Option<RepoStatus> {
    if s == "active"@ {
        Some(RepoStatus::Active)
    } else if s == "archived"@ {
        Some(RepoStatus::Archived)
    } else {
        None
    }
}

impl RepoStatus {
    /// The stored name (`active` or `archived`).
    pub fn as_str(&self) -> (r: &'static str)
        ensures
            r@ == status_name(*self),
    {
        match self {
            RepoStatus::Active => "active",
            RepoStatus::Archived => "archived",
        }
    }

    /// Read a stored status.
    pub fn parse(s: &str) -> (r: Result<RepoStatus, DbError>)
        ensures
            match status_from_name(s@) {
                Some(st) => r == Ok::<RepoStatus, DbError>(st),
                None => r matches Err(DbError::UnknownStatus { status }) && status@ == s@,
            },
    {
        if str_eq(s, "active") {
            Ok(RepoStatus::Active)
        } else if str_eq(s, "archived") {
            Ok(RepoStatus::Archived)
        } else {
            Err(DbError::UnknownStatus { status: owned(s) })
        }
    }

    /// Read a stored status, taking an unreadable one as active (as rows
    /// are read back).
    pub fn parse_or_active(s: &str) -> (r: RepoStatus)
        ensures
            r == match status_from_name(s@) {
                Some(st) => st,
                None => RepoStatus::Active,
            },
    {
        match RepoStatus::parse(s) {
            Ok(st) => st,
            Err(_) => RepoStatus::Active,
        }
    }
}

impl std::str::FromStr for RepoStatus {
    type Err = DbError;

    fn from_str(s: &str) -> (r: Result<RepoStatus, DbError>)
        ensures
            match status_from_name(s@) {
                Some(st) => r == Ok::<RepoStatus, DbError>(st),
                None => r matches Err(DbError::UnknownStatus { status }) && status@ == s@,
            },
    {
        RepoStatus::parse(s)
    }
}

/// Law: a status reads back as itself.
pub proof fn law_status_round_trip(s: RepoStatus)
    ensures
        status_from_name(status_name(s)) == Some(s),
{
    reveal_strlit("active");
    reveal_strlit("archived");
    assert(status_name(RepoStatus::Archived) != "active"@) by {
        assert(status_name(RepoStatus::Archived).len() != "active"@.len());
    }
}

/// The fields of a repository entry to create.
#[derive(Debug)]
pub struct NewRepo {
    pub name: String,
    pub path: String,
    pub url: Option<String>,
    pub directory: Option<String>,
}

/// Which repositories to list.
#[derive(Debug)]
pub struct RepoFilter {
    pub status: Option<RepoStatus>,
    pub directory: Option<String>,
}

impl Default for RepoFilter {
    fn default() -> (r: RepoFilter)
        ensures
            r.status is None,
            r.directory is None,
    {
        RepoFilter { status: None, directory: None }
    }
}

/// A query with its positional parameters.
#[derive(Debug)]
pub struct Query {
    pub sql: String,
    pub params: Vec<String>,
}

/// The query text that lists repositories: every row, narrowed by status
/// and by directory when the filter names them, most frecent first, then
/// by name.
pub open spec fn list_sql_spec(by_status: bool, by_directory: bool) -> Seq<char> {
    "SELECT * FROM repos WHERE 1=1"@ + (if by_status {
        " AND status = ?"@
    } else {
        Seq::empty()
    }) + (if by_directory {
        " AND directory = ?"@
    } else {
        Seq::empty()
    }) + " ORDER BY frecency DESC, name ASC"@
}

/// The parameters of the listing query, in placeholder order.
pub open spec fn list_params_spec(status: Option<RepoStatus>, directory: Option<Seq<char>>) -> Seq<
    Seq<char>,
> {
    (match status {
        Some(s) => seq![status_name(s)],
        None => seq![],
    }) + (match directory {
        Some(d) => seq![d],
        None => seq![],
    })
}

/// Law: a filter with a directory always selects by it, with or without a
/// status: the query's conditions end with `directory = ?` before the
/// ordering, and the last parameter is the directory; there is one
/// parameter per condition, status first.
pub proof fn law_list_query_filters_by_directory(
    status: Option<RepoStatus>,
    directory: Option<Seq<char>>,
)
    ensures
        list_params_spec(status, directory).len() == (if status is Some { 1int } else { 0 }) + (
        if directory is Some {
            1int
        } else {
            0
        }),
        directory is Some ==> {
            &&& has_suffix(
                list_sql_spec(status is Some, directory is Some),
                " AND directory = ? ORDER BY frecency DESC, name ASC"@,
            )
            &&& list_params_spec(status, directory).last() == directory->0
        },
        directory is None ==> !has_suffix(
            list_sql_spec(status is Some, directory is Some),
            " AND directory = ? ORDER BY frecency DESC, name ASC"@,
        ),
{
    let st: Seq<char> = if status is Some {
        " AND status = ?"@
    } else {
        Seq::empty()
    };
    let head = "SELECT * FROM repos WHERE 1=1"@ + st;
    let tail = " ORDER BY frecency DESC, name ASC"@;
    let dtail = " AND directory = ?"@ + tail;
    reveal_strlit(" AND directory = ?");
    reveal_strlit(" ORDER BY frecency DESC, name ASC");
    reveal_strlit(" AND directory = ? ORDER BY frecency DESC, name ASC");
    reveal_strlit("SELECT * FROM repos WHERE 1=1");
    reveal_strlit(" AND status = ?");
    assert(dtail =~= " AND directory = ? ORDER BY frecency DESC, name ASC"@);
    if directory is Some {
        let sql = head + " AND directory = ?"@ + tail;
        assert(sql == list_sql_spec(status is Some, true));
        assert(sql.skip(sql.len() - dtail.len()) =~= dtail);
    } else {
        let sql = head + Seq::<char>::empty() + tail;
        assert(sql == list_sql_spec(status is Some, false));
        if has_suffix(sql, dtail) {
            let k = sql.len() - dtail.len();
            assert(sql.skip(k)[0] == ' ');
            assert(sql.skip(k)[5] == 'd');
            assert(sql[k + 5] == 'd');
        }
    }
}

/// Law: a filter with a status always selects by it, with or without a
/// directory: the query's conditions begin with `status = ?`, and the first
/// parameter is the status's stored name (`active` or `archived`). Without
/// a status the query has no status condition and the parameters are the
/// directory's alone.
pub proof fn law_list_query_filters_by_status(
    status: Option<RepoStatus>,
    directory: Option<Seq<char>>,
)
    ensures
        status is Some ==> {
            &&& has_prefix(
                list_sql_spec(status is Some, directory is Some),
                "SELECT * FROM repos WHERE 1=1 AND status = ?"@,
            )
            &&& list_params_spec(status, directory).len() >= 1
            &&& list_params_spec(status, directory)[0] == (if status == Some(RepoStatus::Active) {
                "active"@
            } else {
                "archived"@
            })
        },
        status is None ==> {
            &&& list_params_spec(status, directory) == match directory {
                Some(d) => seq![d],
                None => Seq::<Seq<char>>::empty(),
            }
            &&& list_sql_spec(status is Some, directory is Some) == "SELECT * FROM repos WHERE 1=1"@
                + (if directory is Some {
                " AND directory = ?"@
            } else {
                Seq::empty()
            }) + " ORDER BY frecency DESC, name ASC"@
        },
{
    let head = "SELECT * FROM repos WHERE 1=1"@;
    let st = " AND status = ?"@;
    let dt: Seq<char> = if directory is Some {
        " AND directory = ?"@
    } else {
        Seq::empty()
    };
    let tail = " ORDER BY frecency DESC, name ASC"@;
    if status is Some {
        reveal_strlit("SELECT * FROM repos WHERE 1=1");
        reveal_strlit(" AND status = ?");
        reveal_strlit("SELECT * FROM repos WHERE 1=1 AND status = ?");
        let sql = head + st + dt + tail;
        assert(sql == list_sql_spec(true, directory is Some));
        assert(head + st =~= "SELECT * FROM repos WHERE 1=1 AND status = ?"@);
        assert(sql.take((head + st).len() as int) =~= head + st);
    } else {
        assert(list_params_spec(status, directory) =~= match directory {
            Some(d) => seq![d],
            None => Seq::<Seq<char>>::empty(),
        });
        assert(head + Seq::<char>::empty() =~= head);
    }
}

impl RepoFilter {
    /// The query that lists the repositories this filter selects.
    pub fn list_query(&self) -> (r: Query)
        ensures
            r.sql@ == list_sql_spec(self.status is Some, self.directory is Some),
            views(r.params@) == list_params_spec(
                self.status,
                match self.directory {
                    Some(d) => Some(d@),
                    None => None,
                },
            ),
    {
        let mut sql = owned("SELECT * FROM repos WHERE 1=1");
        let mut params: Vec<String> = Vec::new();
        if let Some(status) = &self.status {
            sql = concat2(sql.as_str(), " AND status = ?");
            params.push(owned(status.as_str()));
        }
        if let Some(dir) = &self.directory {
            sql = concat2(sql.as_str(), " AND directory = ?");
            params.push(owned(dir.as_str()));
        }
        sql = concat2(sql.as_str(), " ORDER BY frecency DESC, name ASC");
        let r = Query { sql, params };
        proof {
            let st: Seq<char> = if self.status is Some {
                " AND status = ?"@
            } else {
                Seq::empty()
            };
            let dt: Seq<char> = if self.directory is Some {
                " AND directory = ?"@
            } else {
                Seq::empty()
            };
            assert(r.sql@ =~= list_sql_spec(self.status is Some, self.directory is Some));
            assert(views(r.params@) =~= list_params_spec(
                self.status,
                match self.directory {
                    Some(d) => Some(d@),
                    None => None,
                },
            ));
        }
        r
    }
}

/// The `LIKE` pattern that matches names containing `query`.
pub fn like_pattern(query: &str) -> (r: String)
    ensures
        r@ == "%"@ + query@ + "%"@,
{
    concat3("%", query, "%")
}

/// Creates the table on first use.
pub const CREATE_TABLE_SQL: &'static str = "CREATE TABLE IF NOT EXISTS repos (
    id          INTEGER PRIMARY KEY,
    name        TEXT NOT NULL UNIQUE,
    path        TEXT NOT NULL UNIQUE,
    url         TEXT,
    directory   TEXT,
    status      TEXT NOT NULL DEFAULT 'active',
    frecency    REAL NOT NULL DEFAULT 0.0,
    last_accessed_at TEXT,
    created_at  TEXT NOT NULL DEFAULT (datetime('now'))
);";

/// Adds an entry from name, path, url and directory.
pub const INSERT_SQL: &'static str = "INSERT INTO repos (name, path, url, directory) VALUES (?1, ?2, ?3, ?4)";

/// Reads an entry back by id.
pub const SELECT_BY_ID_SQL: &'static str = "SELECT * FROM repos WHERE id = ?1";

/// Removes an entry by exact name.
pub const DELETE_BY_NAME_SQL: &'static str = "DELETE FROM repos WHERE name = ?1";

/// Finds an entry by exact name.
pub const SELECT_BY_NAME_SQL: &'static str = "SELECT * FROM repos WHERE name = ?1";

/// Finds the most frecent entry whose name matches a `LIKE` pattern.
pub const SELECT_LIKE_SQL: &'static str =
    "SELECT * FROM repos WHERE name LIKE ?1 ORDER BY frecency DESC LIMIT 1";

/// Records an access: frecency up by one, access time now.
pub const TOUCH_SQL: &'static str =
    "UPDATE repos SET frecency = frecency + 1.0, last_accessed_at = datetime('now') WHERE id = ?1";

} // verus!
