//! Database monitoring: where to connect (the port on the command line or the
//! host side of a container's port mapping) and which credentials a
//! container's environment supplies.
use vstd::prelude::*;
use crate::collectors::ports::{
    chars_eq, find_host_port, first_host_port, parse_port, string_views,
};
use crate::models::DatabaseType;
use crate::text::{
    chars_of, find_chars, parse_u16, second_piece, second_piece_chars, slice_chars,
    split_words, starts_with, starts_with_chars, trim, trim_chars, words, seqs, find_from,
    contains, contains_chars, lines, split_lines, string_from_chars,
};

verus! {

/// State of the connection to a monitored database.
#[derive(Clone, Debug, PartialEq, Eq)]
pub enum DbConnectionStatus {
    Disconnected,
    Connecting,
    Connected,
    AuthRequired(String),
    Error(String),
}

/// The port each engine listens on unless told otherwise.
pub open spec fn default_db_port(t: DatabaseType) -> u16 {
    match t {
        DatabaseType::PostgreSQL => 5432,
        DatabaseType::MySqlMariaDb => 3306,
    }
}

/// The container port each engine is published from, as text.
pub open spec fn db_container_port_text(t: DatabaseType) -> Seq<char> {
    match t {
        DatabaseType::PostgreSQL => "5432"@,
        DatabaseType::MySqlMariaDb => "3306"@,
    }
}

/// A word that announces a port in the next word.
pub open spec fn is_db_port_flag(w: Seq<char>) -> bool {
    w == "-p"@ || w == "-P"@ || w == "--port"@
}

/// The port that word `i` of a command line names, if any: the next word after
/// `-p`, `-P` or `--port`, or the value of a `--port=N` word.
pub open spec fn db_port_at(ws: Seq<Seq<char>>, i: int) -> Option<nat> {
    if is_db_port_flag(ws[i]) && i + 1 < ws.len() {
        parse_port(ws[i + 1])
    } else if starts_with(ws[i], "--port="@) {
        match second_piece(ws[i], seq!['=']) {
            Some(v) => parse_port(v),
            None => None,
        }
    } else {
        None
    }
}

/// The first port that a word at or after `i` names.
pub open spec fn first_db_port(ws: Seq<Seq<char>>, i: int) -> Option<nat>
    decreases ws.len() - i,
{
    if i < 0 || i >= ws.len() {
        None
    } else if db_port_at(ws, i) is Some {
        db_port_at(ws, i)
    } else {
        first_db_port(ws, i + 1)
    }
}

/// The port of a database server started with command line `cmd`.
pub open spec fn db_port_of_cmd(cmd: Seq<char>, t: DatabaseType) -> u16 {
    match first_db_port(words(cmd), 0) {
        Some(p) => p as u16,
        None => default_db_port(t),
    }
}

/// The port a database server started with command line `cmd` listens on:
/// the first one that `-p N`, `-P N`, `--port N` or `--port=N` names, or the
/// engine's default.
pub fn extract_port(cmd: &str, db_type: DatabaseType) -> (r: u16)
    ensures
        r == db_port_of_cmd(cmd@, db_type),
{
    let cs = chars_of(cmd);
    let ws = split_words(&cs);
    let ghost wv = seqs(ws@);
    let flag1 = chars_of("-p");
    let flag2 = chars_of("-P");
    let flag3 = chars_of("--port");
    let prefix = chars_of("--port=");
    let eq = vec!['='];
    assert(eq@ =~= seq!['=']);
    let mut i: usize = 0;
    while i < ws.len()
        invariant
            i <= ws.len(),
            wv == seqs(ws@),
            wv == words(cmd@),
            flag1@ == "-p"@,
            flag2@ == "-P"@,
            flag3@ == "--port"@,
            prefix@ == "--port="@,
            eq@ == seq!['='],
            first_db_port(wv, 0) == first_db_port(wv, i as int),
        decreases ws.len() - i,
    {
        let w = &ws[i];
        assert(w@ == wv[i as int]);
        let is_flag = chars_eq(w.as_slice(), flag1.as_slice()) || chars_eq(
            w.as_slice(),
            flag2.as_slice(),
        ) || chars_eq(w.as_slice(), flag3.as_slice());
        if is_flag && i + 1 < ws.len() {
            assert(ws[i + 1]@ == wv[i + 1]);
            if let Some(port) = parse_u16(ws[i + 1].as_slice()) {
                return port;
            }
        } else if starts_with_chars(w.as_slice(), prefix.as_slice()) {
            if let Some(v) = second_piece_chars(w.as_slice(), eq.as_slice()) {
                if let Some(port) = parse_u16(v.as_slice()) {
                    return port;
                }
            }
        }
        i += 1;
    }
    match db_type {
        DatabaseType::PostgreSQL => 5432,
        DatabaseType::MySqlMariaDb => 3306,
    }
}

/// The host port published for the engine's container port among `ports`,
/// or the engine's default port.
pub open spec fn db_container_host_port(ports: Seq<Seq<char>>, t: DatabaseType) -> u16 {
    match first_host_port(ports, db_container_port_text(t), 0) {
        Some(p) => p as u16,
        None => default_db_port(t),
    }
}

/// The host port under which a database container is reachable: the host
/// side of the first mapping of the engine's standard port whose host port
/// reads as a number, or the engine's default port.
pub fn extract_container_host_port(ports: &[String], db_type: DatabaseType) -> (r: u16)
    ensures
        r == db_container_host_port(string_views(ports@), db_type),
{
    let target = match db_type {
        DatabaseType::PostgreSQL => chars_of("5432"),
        DatabaseType::MySqlMariaDb => chars_of("3306"),
    };
    match find_host_port(ports, target.as_slice()) {
        Some(p) => p,
        None => match db_type {
            DatabaseType::PostgreSQL => 5432,
            DatabaseType::MySqlMariaDb => 3306,
        },
    }
}


/// Connection settings that a container's environment supplies.
#[derive(Clone, Debug)]
pub struct DbCredentials {
    pub user: Option<String>,
    pub password: Option<String>,
    pub dbname: Option<String>,
}

pub open spec fn opt_view(o: Option<String>) -> Option<Seq<char>> {
    match o {
        Some(s) => Some(s@),
        None => None,
    }
}

/// The abstract credentials: user, password and database name.
pub type CredentialsView = (Option<Seq<char>>, Option<Seq<char>>, Option<Seq<char>>);

impl DbCredentials {
    pub open spec fn view(&self) -> CredentialsView {
        (opt_view(self.user), opt_view(self.password), opt_view(self.dbname))
    }
}

/// The effect of one `KEY=value` environment entry on the credentials.
pub open spec fn apply_env_entry(c: CredentialsView, entry: Seq<char>, t: DatabaseType) -> CredentialsView {
    match find_from(entry, seq!['='], 0) {
        None => c,
        Some(i) => {
            let k = trim(entry.take(i));
            let v = trim(entry.skip(i + 1));
            match t {
                DatabaseType::PostgreSQL => if k == "POSTGRES_USER"@ {
                    (Some(v), c.1, c.2)
                } else if k == "POSTGRES_PASSWORD"@ {
                    (c.0, Some(v), c.2)
                } else if k == "POSTGRES_DB"@ {
                    (c.0, c.1, Some(v))
                } else {
                    c
                },
                DatabaseType::MySqlMariaDb => if k == "MYSQL_USER"@ {
                    (Some(v), c.1, c.2)
                } else if k == "MYSQL_PASSWORD"@ || k == "MYSQL_ROOT_PASSWORD"@ || k
                    == "MYSQL_PWD"@ {
                    (c.0, Some(v), c.2)
                } else if k == "MYSQL_DATABASE"@ {
                    (c.0, c.1, Some(v))
                } else {
                    c
                },
            }
        },
    }
}

/// The credentials after the first `n` environment entries, later entries
/// overriding earlier ones.
pub open spec fn env_credentials(envs: Seq<Seq<char>>, t: DatabaseType, n: int) -> CredentialsView
    decreases n,
{
    if n <= 0 {
        (None, None, None)
    } else {
        apply_env_entry(env_credentials(envs, t, n - 1), envs[n - 1], t)
    }
}

/// The credentials for a database container: what its environment sets,
/// with `root` as the MySQL/MariaDB user when none is set.
pub open spec fn container_credentials_spec(envs: Seq<Seq<char>>, t: DatabaseType) -> CredentialsView {
    let c = env_credentials(envs, t, envs.len() as int);
    if t == DatabaseType::MySqlMariaDb && c.0 is None {
        (Some("root"@), c.1, c.2)
    } else {
        c
    }
}

/// Reads the user, password and database name that a database container's
/// environment variables (`POSTGRES_USER`, `MYSQL_ROOT_PASSWORD`, ...) set;
/// `None` for each that none of them sets.
pub fn env_overrides(env_vars: &[String], db_type: DatabaseType) -> (r: DbCredentials)
    ensures
        r.view() == env_credentials(string_views(env_vars@), db_type, env_vars@.len() as int),
{
    let ghost envs = string_views(env_vars@);
    let mut user: Option<String> = None;
    let mut password: Option<String> = None;
    let mut dbname: Option<String> = None;
    let eq = vec!['='];
    assert(eq@ =~= seq!['=']);
    let k_pg_user = chars_of("POSTGRES_USER");
    let k_pg_pass = chars_of("POSTGRES_PASSWORD");
    let k_pg_db = chars_of("POSTGRES_DB");
    let k_my_user = chars_of("MYSQL_USER");
    let k_my_pass = chars_of("MYSQL_PASSWORD");
    let k_my_root = chars_of("MYSQL_ROOT_PASSWORD");
    let k_my_pwd = chars_of("MYSQL_PWD");
    let k_my_db = chars_of("MYSQL_DATABASE");
    let mut n: usize = 0;
    while n < env_vars.len()
        invariant
            n <= env_vars.len(),
            envs == string_views(env_vars@),
            eq@ == seq!['='],
            k_pg_user@ == "POSTGRES_USER"@,
            k_pg_pass@ == "POSTGRES_PASSWORD"@,
            k_pg_db@ == "POSTGRES_DB"@,
            k_my_user@ == "MYSQL_USER"@,
            k_my_pass@ == "MYSQL_PASSWORD"@,
            k_my_root@ == "MYSQL_ROOT_PASSWORD"@,
            k_my_pwd@ == "MYSQL_PWD"@,
            k_my_db@ == "MYSQL_DATABASE"@,
            (opt_view(user), opt_view(password), opt_view(dbname)) == env_credentials(
                envs,
                db_type,
                n as int,
            ),
        decreases env_vars.len() - n,
    {
        let e = chars_of(env_vars[n].as_str());
        assert(e@ == envs[n as int]);
        if let Some(i) = find_chars(e.as_slice(), eq.as_slice(), 0) {
            let kraw = slice_chars(e.as_slice(), 0, i);
            let vraw = slice_chars(e.as_slice(), i + 1, e.len());
            assert(kraw@ =~= e@.take(i as int));
            assert(vraw@ =~= e@.skip(i + 1));
            let k = trim_chars(kraw.as_slice());
            let v = trim_chars(vraw.as_slice());
            let vs = crate::text::string_from_chars(v.as_slice());
            match db_type {
                DatabaseType::PostgreSQL => {
                    if chars_eq(k.as_slice(), k_pg_user.as_slice()) {
                        user = Some(vs);
                    } else if chars_eq(k.as_slice(), k_pg_pass.as_slice()) {
                        password = Some(vs);
                    } else if chars_eq(k.as_slice(), k_pg_db.as_slice()) {
                        dbname = Some(vs);
                    }
                },
                DatabaseType::MySqlMariaDb => {
                    if chars_eq(k.as_slice(), k_my_user.as_slice()) {
                        user = Some(vs);
                    } else if chars_eq(k.as_slice(), k_my_pass.as_slice()) || chars_eq(
                        k.as_slice(),
                        k_my_root.as_slice(),
                    ) || chars_eq(k.as_slice(), k_my_pwd.as_slice()) {
                        password = Some(vs);
                    } else if chars_eq(k.as_slice(), k_my_db.as_slice()) {
                        dbname = Some(vs);
                    }
                },
            }
        }
        n += 1;
    }
    DbCredentials { user, password, dbname }
}

/// The credentials used to connect to a database container: those its
/// environment sets, with `root` as the MySQL/MariaDB user when none is set.
pub fn container_credentials(env_vars: &[String], db_type: DatabaseType) -> (r: DbCredentials)
    ensures
        r.view() == container_credentials_spec(string_views(env_vars@), db_type),
{
    let mut c = env_overrides(env_vars, db_type);
    if db_type == DatabaseType::MySqlMariaDb && c.user.is_none() {
        c.user = Some("root".to_owned());
    }
    c
}

// ───────────────────────── InnoDB status ─────────────────────────

/// The last word of the last of the first `n` lines that contains `pat`.
pub open spec fn last_word_of_line_with(ls: Seq<Seq<char>>, pat: Seq<char>, n: int) -> Option<Seq<char>>
    decreases n,
{
    if n <= 0 {
        None
    } else if contains(ls[n - 1], pat) && words(ls[n - 1]).len() > 0 {
        Some(words(ls[n - 1]).last())
    } else {
        last_word_of_line_with(ls, pat, n - 1)
    }
}

/// What `SHOW ENGINE INNODB STATUS` says of the buffer pool, as text: the
/// last word of the last line naming `Buffer pool size` (its pages) and of
/// the last line naming `Free buffers` (its free pages).
pub open spec fn innodb_buffer_words(status: Seq<char>) -> (Option<Seq<char>>, Option<Seq<char>>) {
    let ls = lines(status);
    (
        last_word_of_line_with(ls, "Buffer pool size"@, ls.len() as int),
        last_word_of_line_with(ls, "Free buffers"@, ls.len() as int),
    )
}

/// The hits and reads of each of the first `n` lines that names the
/// `Buffer pool hit rate` and has at least seven words: its fifth and
/// seventh words, in line order.
pub open spec fn hit_rate_pairs(ls: Seq<Seq<char>>, n: int) -> Seq<(Seq<char>, Seq<char>)>
    decreases n,
{
    if n <= 0 {
        seq![]
    } else {
        let w = words(ls[n - 1]);
        if contains(ls[n - 1], "Buffer pool hit rate"@) && w.len() >= 7 {
            hit_rate_pairs(ls, n - 1).push((w[4], w[6]))
        } else {
            hit_rate_pairs(ls, n - 1)
        }
    }
}

/// Reads the buffer pool's page count and free pages, as the words that
/// hold them (see `innodb_buffer_words`); their ratio is taken by the caller.
pub fn parse_innodb_buffer_words(status: &str) -> (r: (Option<String>, Option<String>))
    ensures
        (match r.0 {
            Some(t) => Some(t@),
            None => None,
        }) == innodb_buffer_words(status@).0,
        (match r.1 {
            Some(t) => Some(t@),
            None => None,
        }) == innodb_buffer_words(status@).1,
{
    let ls = split_lines(chars_of(status).as_slice());
    let ghost lv = seqs(ls@);
    let size_pat = chars_of("Buffer pool size");
    let free_pat = chars_of("Free buffers");
    let mut total: Option<Vec<char>> = None;
    let mut free: Option<Vec<char>> = None;
    let mut i: usize = 0;
    while i < ls.len()
        invariant
            i <= ls@.len(),
            lv == seqs(ls@),
            lv == lines(status@),
            size_pat@ == "Buffer pool size"@,
            free_pat@ == "Free buffers"@,
            (match total {
                Some(t) => Some(t@),
                None => None,
            }) == last_word_of_line_with(lv, "Buffer pool size"@, i as int),
            (match free {
                Some(t) => Some(t@),
                None => None,
            }) == last_word_of_line_with(lv, "Free buffers"@, i as int),
        decreases ls.len() - i,
    {
        assert(ls@[i as int]@ == lv[i as int]);
        let ws = split_words(&ls[i]);
        if ws.len() > 0 {
            assert(seqs(ws@).last() == ws@[ws.len() - 1]@);
            if contains_chars(ls[i].as_slice(), size_pat.as_slice()) {
                total = Some(ws[ws.len() - 1].clone());
            }
            if contains_chars(ls[i].as_slice(), free_pat.as_slice()) {
                free = Some(ws[ws.len() - 1].clone());
            }
        }
        i += 1;
    }
    let t = match total {
        Some(t) => Some(string_from_chars(t.as_slice())),
        None => None,
    };
    let f = match free {
        Some(f) => Some(string_from_chars(f.as_slice())),
        None => None,
    };
    (t, f)
}

/// The hits and reads words of every `Buffer pool hit rate` line of seven
/// words or more, in line order (see `hit_rate_pairs`); the caller takes the
/// first whose reads are above zero.
pub fn parse_innodb_hit_rate_words(status: &str) -> (r: Vec<(String, String)>)
    ensures
        r@.len() == hit_rate_pairs(lines(status@), lines(status@).len() as int).len(),
        forall|k: int|
            0 <= k < r@.len() ==> (#[trigger] r@[k]).0@ == hit_rate_pairs(
                lines(status@),
                lines(status@).len() as int,
            )[k].0 && r@[k].1@ == hit_rate_pairs(lines(status@), lines(status@).len() as int)[k].1,
{
    let ls = split_lines(chars_of(status).as_slice());
    let ghost lv = seqs(ls@);
    let pat = chars_of("Buffer pool hit rate");
    let mut r: Vec<(String, String)> = Vec::new();
    let mut i: usize = 0;
    while i < ls.len()
        invariant
            i <= ls@.len(),
            lv == seqs(ls@),
            lv == lines(status@),
            pat@ == "Buffer pool hit rate"@,
            r@.len() == hit_rate_pairs(lv, i as int).len(),
            forall|k: int|
                0 <= k < r@.len() ==> (#[trigger] r@[k]).0@ == hit_rate_pairs(lv, i as int)[k].0
                    && r@[k].1@ == hit_rate_pairs(lv, i as int)[k].1,
        decreases ls.len() - i,
    {
        assert(ls@[i as int]@ == lv[i as int]);
        let ws = split_words(&ls[i]);
        if ws.len() >= 7 && contains_chars(ls[i].as_slice(), pat.as_slice()) {
            assert(seqs(ws@)[4] == ws@[4]@);
            assert(seqs(ws@)[6] == ws@[6]@);
            let hits = string_from_chars(ws[4].as_slice());
            let reads = string_from_chars(ws[6].as_slice());
            r.push((hits, reads));
        }
        i += 1;
    }
    r
}

} // verus!
