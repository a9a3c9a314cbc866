//! Server records: identity, validation, and the slug rule that ties a
//! server's id to its name.

use vstd::prelude::*;

use crate::error::{Error, ErrorCode};
use crate::text::{
    chars_of, is_whitespace_char, replace_char, spec_replace_char, spec_trim, string_of,
    trim_chars, whitespace_char,
};

verus! {

/// One configured server.
#[derive(Debug, Clone)]
pub struct Server {
    pub id: String,
    pub name: String,
    pub host: String,
    pub user: String,
    pub port: u16,
    pub identity_file: Option<String>,
}

/// The port used when none is configured.
pub fn default_port() -> (r: u16)
    ensures
        r == 22,
{
    22
}

impl Server {
    /// The keychain entry name for this server under a service prefix.
    pub fn keychain_service_name(&self, prefix: &str) -> (r: String)
        ensures
            r@ == prefix@ + "."@ + self.id@,
    {
        let mut out = String::from_str(prefix);
        out.append(".");
        out.append(self.id.as_str());
        out
    }

    /// A server is usable when it has a host and a user.
    pub fn is_valid(&self) -> (r: bool)
        ensures
            r == (self.host@.len() > 0 && self.user@.len() > 0),
    {
        !self.host.as_str().is_empty() && !self.user.as_str().is_empty()
    }

    /// The generated id for a host: `server-` with the host's dots dashed.
    pub fn generate_id(host: &str) -> (r: String)
        ensures
            r@ == "server-"@ + spec_replace_char(host@, '.', '-'),
    {
        let v = chars_of(host);
        let dashed = replace_char(&v, '.', '-');
        let ds = string_of(&dashed);
        let mut out = String::from_str("server-");
        out.append(ds.as_str());
        out
    }
}

/// One slugging step: lowercase letters and digits pass, uppercase letters
/// are lowered, whitespace, underscores and dashes become a dash, anything
/// else is dropped.
pub open spec fn slug_map(c: char) -> Option<char> {
    if ('a' <= c && c <= 'z') || ('0' <= c && c <= '9') {
        Some(c)
    } else if 'A' <= c && c <= 'Z' {
        Some((((c as u8) + 32) as char))
    } else if is_whitespace_char(c) || c == '_' || c == '-' {
        Some('-')
    } else {
        None
    }
}

/// The slug accumulated over the input: dashes collapse, and none may lead.
pub open spec fn slug_core(s: Seq<char>, acc: Seq<char>, prev_dash: bool) -> Seq<char>
    decreases s.len(),
{
    if s.len() == 0 {
        acc
    } else {
        match slug_map(s[0]) {
            None => slug_core(s.drop_first(), acc, prev_dash),
            Some(c) => {
                if c == '-' {
                    if acc.len() == 0 || prev_dash {
                        slug_core(s.drop_first(), acc, prev_dash)
                    } else {
                        slug_core(s.drop_first(), acc.push('-'), true)
                    }
                } else {
                    slug_core(s.drop_first(), acc.push(c), false)
                }
            },
        }
    }
}

/// Trailing dashes are stripped from the accumulated slug.
pub open spec fn strip_trailing_dashes(s: Seq<char>) -> Seq<char>
    decreases s.len(),
{
    if s.len() > 0 && s[s.len() - 1] == '-' {
        strip_trailing_dashes(s.drop_last())
    } else {
        s
    }
}

/// The slug of a name: mapped character by character over the trimmed name,
/// with dashes collapsed and stripped from both ends.
pub open spec fn spec_slug(name: Seq<char>) -> Seq<char> {
    strip_trailing_dashes(slug_core(spec_trim(name), Seq::empty(), false))
}

/// Turns a display name into the id it must be stored under. An empty name,
/// or one with no letter or digit at all, is rejected.
pub fn slugify_id(name: &str) -> (r: Result<String, Error>)
    ensures
        match r {
            Ok(s) => s@ == spec_slug(name@) && s@.len() > 0,
            Err(e) => (spec_trim(name@).len() == 0 || spec_slug(name@).len() == 0) && e.code
                == ErrorCode::ValidationInvalidArgument,
        },
{
    let nv = chars_of(name);
    let trimmed = trim_chars(&nv);
    if trimmed.len() == 0 {
        return Err(
            Error::validation_invalid_argument(
                "name",
                String::from_str("Name cannot be empty"),
                None,
                None,
            ),
        );
    }
    let mut out: Vec<char> = Vec::new();
    let mut prev_dash = false;
    let mut i: usize = 0;
    let ghost t = trimmed@;
    proof {
        assert(t.subrange(0, t.len() as int) =~= t);
    }
    while i < trimmed.len()
        invariant
            0 <= i <= t.len(),
            t == trimmed@,
            slug_core(t, Seq::empty(), false) == slug_core(
                t.subrange(i as int, t.len() as int),
                out@,
                prev_dash,
            ),
        decreases t.len() - i,
    {
        let ghost tail = t.subrange(i as int, t.len() as int);
        let ghost tail2 = t.subrange(i + 1, t.len() as int);
        proof {
            assert(tail.len() > 0);
            assert(tail[0] == t[i as int]);
            assert(tail.drop_first() =~= tail2);
        }
        let c = trimmed[i];
        let mapped: Option<char> = if ('a' <= c && c <= 'z') || ('0' <= c && c <= '9') {
            Some(c)
        } else if 'A' <= c && c <= 'Z' {
            Some(((c as u8) + 32) as char)
        } else if whitespace_char(c) || c == '_' || c == '-' {
            Some('-')
        } else {
            None
        };
        proof {
            assert(mapped == slug_map(t[i as int]));
        }
        match mapped {
            None => {},
            Some(m) => {
                if m == '-' {
                    if out.len() == 0 || prev_dash {
                    } else {
                        out.push('-');
                        prev_dash = true;
                    }
                } else {
                    out.push(m);
                    prev_dash = false;
                }
            },
        }
        i = i + 1;
    }
    proof {
        assert(t.subrange(i as int, t.len() as int).len() == 0);
        assert(slug_core(t, Seq::empty(), false) == out@);
    }
    while out.len() > 0 && out[out.len() - 1] == '-'
        invariant
            strip_trailing_dashes(out@) == spec_slug(name@),
        decreases out@.len(),
    {
        let _ = out.pop();
    }
    proof {
        assert(strip_trailing_dashes(out@) == out@);
    }
    if out.len() == 0 {
        return Err(
            Error::validation_invalid_argument(
                "name",
                String::from_str("Name must contain at least one letter or number"),
                None,
                None,
            ),
        );
    }
    Ok(string_of(&out))
}

/// A created server with its id.
#[derive(Debug, Clone)]
pub struct CreateResult {
    pub id: String,
    pub server: Server,
}

/// An updated server with the fields that changed.
#[derive(Debug, Clone)]
pub struct UpdateResult {
    pub id: String,
    pub server: Server,
    pub updated_fields: Vec<String>,
}

/// Counts for a bulk import of servers.
#[derive(Debug, Clone)]
pub struct CreateSummary {
    pub created: u32,
    pub skipped: u32,
    pub errors: u32,
    pub items: Vec<CreateSummaryItem>,
}

/// One imported server's outcome.
#[derive(Debug, Clone)]
pub struct CreateSummaryItem {
    pub id: String,
    pub status: String,
    pub error: Option<String>,
}

/// Builds a server record from command-line arguments. Every field must be
/// given; the id is the slug of the name and must not already be taken.
pub fn create_from_cli(
    name: Option<String>,
    host: Option<String>,
    user: Option<String>,
    port: Option<u16>,
    existing_ids: &Vec<String>,
) -> (r: Result<CreateResult, Error>)
    ensures
        r is Err <==> (name is None || host is None || user is None || (name matches Some(n)
            && (spec_trim(n@).len() == 0 || spec_slug(n@).len() == 0 || (exists|i: int|
            0 <= i < existing_ids@.len() && (#[trigger] existing_ids@[i])@ == spec_slug(
                n@,
            ))))),
        match r {
            Ok(c) => {
                &&& name matches Some(n) && c.server.name@ == n@
                &&& host matches Some(h) && c.server.host@ == h@
                &&& user matches Some(u) && c.server.user@ == u@
                &&& c.id@ == spec_slug(c.server.name@)
                &&& c.server.id@ == c.id@
                &&& c.server.port == (match port {
                    Some(p) => p,
                    None => 22,
                })
                &&& c.server.identity_file is None
                &&& forall|i: int| 0 <= i < existing_ids@.len() ==> existing_ids@[i]@ != c.id@
            },
            Err(e) => e.code == ErrorCode::ValidationInvalidArgument,
        },
{
    let name_v = match name {
        Some(n) => n,
        None => {
            return Err(
                Error::validation_invalid_argument(
                    "name",
                    String::from_str("Missing required argument: name"),
                    None,
                    None,
                ),
            );
        },
    };
    let host_v = match host {
        Some(h) => h,
        None => {
            return Err(
                Error::validation_invalid_argument(
                    "host",
                    String::from_str("Missing required argument: host"),
                    None,
                    None,
                ),
            );
        },
    };
    let user_v = match user {
        Some(u) => u,
        None => {
            return Err(
                Error::validation_invalid_argument(
                    "user",
                    String::from_str("Missing required argument: user"),
                    None,
                    None,
                ),
            );
        },
    };
    let id = match slugify_id(name_v.as_str()) {
        Ok(i) => i,
        Err(e) => {
            return Err(e);
        },
    };
    let mut k: usize = 0;
    while k < existing_ids.len()
        invariant
            0 <= k <= existing_ids@.len(),
            name == Some(name_v),
            id@ == spec_slug(name_v@),
            forall|i: int| 0 <= i < k ==> existing_ids@[i]@ != id@,
        decreases existing_ids@.len() - k,
    {
        if existing_ids[k].eq(&id) {
            proof {
                assert((existing_ids@[k as int])@ == spec_slug(name_v@));
            }
            return Err(
                Error::validation_invalid_argument(
                    "server.name",
                    String::from_str("Server already exists"),
                    Some(id),
                    None,
                ),
            );
        }
        k = k + 1;
    }
    proof {
        if spec_trim(name_v@).len() == 0 {
            assert(slug_core(spec_trim(name_v@), Seq::empty(), false)
                == Seq::<char>::empty());
            assert(spec_slug(name_v@).len() == 0);
        }
    }
    let server = Server {
        id: id.clone(),
        name: name_v,
        host: host_v,
        user: user_v,
        port: match port {
            Some(p) => p,
            None => 22,
        },
        identity_file: None,
    };
    Ok(CreateResult { id, server })
}

/// Applies field updates to a loaded server. A new name whose slug differs
/// from the current id is rejected: renaming is a separate operation.
pub fn update(
    server: Server,
    name: Option<String>,
    host: Option<String>,
    user: Option<String>,
    port: Option<u16>,
) -> (r: Result<UpdateResult, Error>)
    ensures
        r is Err <==> (name matches Some(n) && (spec_trim(n@).len() == 0 || spec_slug(
            n@,
        ).len() == 0 || spec_slug(n@) != server.id@)),
        match r {
            Ok(u) => {
                &&& u.id@ == server.id@
                &&& u.server.id@ == server.id@
                &&& u.server.name@ == (match name {
                    Some(n) => n@,
                    None => server.name@,
                })
                &&& u.server.host@ == (match host {
                    Some(h) => h@,
                    None => server.host@,
                })
                &&& u.server.user@ == (match user {
                    Some(us) => us@,
                    None => server.user@,
                })
                &&& u.server.port == (match port {
                    Some(p) => p,
                    None => server.port,
                })
                &&& (name matches Some(n) ==> spec_slug(n@) == server.id@)
                &&& u.updated_fields.deep_view() == (if name is Some {
                    seq!["name"@]
                } else {
                    Seq::<Seq<char>>::empty()
                }) + (if host is Some {
                    seq!["host"@]
                } else {
                    Seq::<Seq<char>>::empty()
                }) + (if user is Some {
                    seq!["user"@]
                } else {
                    Seq::<Seq<char>>::empty()
                }) + (if port is Some {
                    seq!["port"@]
                } else {
                    Seq::<Seq<char>>::empty()
                })
            },
            Err(e) => e.code == ErrorCode::ValidationInvalidArgument,
        },
{
    let mut server = server;
    let mut updated: Vec<String> = Vec::new();
    match name {
        Some(new_name) => {
            let new_id = match slugify_id(new_name.as_str()) {
                Ok(i) => i,
                Err(e) => {
                    return Err(e);
                },
            };
            if !new_id.eq(&server.id) {
                return Err(
                    Error::validation_invalid_argument(
                        "name",
                        String::from_str(
                            "Changing name would change id. Use rename command instead.",
                        ),
                        Some(new_name),
                        None,
                    ),
                );
            }
            proof {
                if spec_trim(new_name@).len() == 0 {
                    assert(slug_core(spec_trim(new_name@), Seq::empty(), false)
                        == Seq::<char>::empty());
                    assert(spec_slug(new_name@).len() == 0);
                }
            }
            server.name = new_name;
            updated.push(String::from_str("name"));
        },
        None => {},
    }
    match host {
        Some(h) => {
            server.host = h;
            updated.push(String::from_str("host"));
        },
        None => {},
    }
    match user {
        Some(u) => {
            server.user = u;
            updated.push(String::from_str("user"));
        },
        None => {},
    }
    match port {
        Some(p) => {
            server.port = p;
            updated.push(String::from_str("port"));
        },
        None => {},
    }
    let id = server.id.clone();
    proof {
        assert(updated.deep_view() =~~= (if name is Some {
            seq!["name"@]
        } else {
            Seq::<Seq<char>>::empty()
        }) + (if host is Some {
            seq!["host"@]
        } else {
            Seq::<Seq<char>>::empty()
        }) + (if user is Some {
            seq!["user"@]
        } else {
            Seq::<Seq<char>>::empty()
        }) + (if port is Some {
            seq!["port"@]
        } else {
            Seq::<Seq<char>>::empty()
        }));
    }
    Ok(UpdateResult { id, server, updated_fields: updated })
}

/// Sets or clears the identity file of a loaded server.
pub fn set_identity_file(server: Server, identity_file: Option<String>) -> (r: Server)
    ensures
        r.id@ == server.id@,
        r.name@ == server.name@,
        r.host@ == server.host@,
        r.user@ == server.user@,
        r.port == server.port,
        crate::version::opt_string_view(r.identity_file) == crate::version::opt_string_view(
            identity_file,
        ),
{
    let mut server = server;
    server.identity_file = identity_file;
    server
}

/// The rule storing a server enforces: its id must be the slug of its name;
/// renaming is a separate operation.
pub fn validate_server_id(server: &Server) -> (r: Result<(), Error>)
    ensures
        r is Ok <==> (spec_trim(server.name@).len() > 0 && spec_slug(server.name@).len() > 0
            && spec_slug(server.name@) == server.id@),
        (spec_trim(server.name@).len() > 0 && spec_slug(server.name@).len() > 0 && spec_slug(
            server.name@,
        ) != server.id@) ==> (r matches Err(e) && e.code == ErrorCode::ConfigInvalidValue),
        (spec_trim(server.name@).len() == 0 || spec_slug(server.name@).len() == 0) ==> (
        r matches Err(e) && e.code == ErrorCode::ValidationInvalidArgument),
{
    match slugify_id(server.name.as_str()) {
        Ok(expected) => {
            if expected.eq(&server.id) {
                Ok(())
            } else {
                Err(
                    Error::config_invalid_value(
                        "server.id",
                        Some(server.id.clone()),
                        String::from_str(
                            "Server id must match the slug of its name. Use rename to change.",
                        ),
                    ),
                )
            }
        },
        Err(e) => {
            proof {
                if spec_trim(server.name@).len() == 0 {
                    assert(slug_core(spec_trim(server.name@), Seq::empty(), false)
                        == Seq::<char>::empty());
                    assert(spec_slug(server.name@).len() == 0);
                }
            }
            Err(e)
        },
    }
}

/// Deletion requires the record to exist and the caller to confirm with
/// force; each refusal carries its own error.
pub fn delete_with_validation(id: &str, exists_on_disk: bool, force: bool) -> (r: Result<
    (),
    Error,
>)
    ensures
        r is Ok <==> (exists_on_disk && force),
        !exists_on_disk ==> (r matches Err(e) && e.code == ErrorCode::ServerNotFound),
        exists_on_disk && !force ==> (r matches Err(e) && e.code
            == ErrorCode::ValidationInvalidArgument && e.message@
            == "Use --force to confirm deletion"@),
{
    if !exists_on_disk {
        return Err(Error::server_not_found(String::from_str(id)));
    }
    if !force {
        return Err(
            Error::validation_invalid_argument(
                "force",
                String::from_str("Use --force to confirm deletion"),
                Some(String::from_str(id)),
                None,
            ),
        );
    }
    Ok(())
}

/// The ghost shape of a server record.
pub open spec fn server_model(s: Server) -> (
    Seq<char>,
    Seq<char>,
    Seq<char>,
    Seq<char>,
    u16,
    Option<Seq<char>>,
) {
    (
        s.id@,
        s.name@,
        s.host@,
        s.user@,
        s.port,
        crate::version::opt_string_view(s.identity_file),
    )
}

/// The listing order of servers: by name, code point by code point.
pub open spec fn server_le(a: Server, b: Server) -> bool {
    crate::text::spec_lex_cmp(a.name@, b.name@) != core::cmp::Ordering::Greater
}

fn server_le_exec(a: &Server, b: &Server) -> (r: bool)
    ensures
        r == server_le(*a, *b),
{
    let av = chars_of(a.name.as_str());
    let bv = chars_of(b.name.as_str());
    match crate::text::lex_cmp_chars(&av, &bv) {
        core::cmp::Ordering::Greater => false,
        _ => true,
    }
}

proof fn lemma_server_le_total(a: Server, b: Server)
    ensures
        server_le(a, b) || server_le(b, a),
{
    crate::text::lemma_lex_cmp_flip(a.name@, b.name@);
}

proof fn lemma_server_le_trans(a: Server, b: Server, c: Server)
    requires
        server_le(a, b),
        server_le(b, c),
    ensures
        server_le(a, c),
{
    crate::text::lemma_lex_cmp_trans(a.name@, b.name@, c.name@);
}

/// Sorts server records by name, as the listing shows them: a permutation of
/// the input in name order.
pub fn sort_servers(v: Vec<Server>) -> (r: Vec<Server>)
    ensures
        r@.len() == v@.len(),
        r@.map_values(|e: Server| server_model(e)).to_multiset() == v@.map_values(
            |e: Server| server_model(e),
        ).to_multiset(),
        forall|i: int, j: int| 0 <= i < j < r@.len() ==> server_le(r@[i], r@[j]),
{
    broadcast use vstd::seq_lib::group_to_multiset_ensures;

    let ghost v0 = v@;
    let mut rem = v;
    let mut out: Vec<Server> = Vec::new();
    proof {
        assert(out@.map_values(|e: Server| server_model(e)).to_multiset().add(
            rem@.map_values(|e: Server| server_model(e)).to_multiset(),
        ) =~= v0.map_values(|e: Server| server_model(e)).to_multiset());
    }
    while rem.len() > 0
        invariant
            out@.len() + rem@.len() == v0.len(),
            out@.map_values(|e: Server| server_model(e)).to_multiset().add(
                rem@.map_values(|e: Server| server_model(e)).to_multiset(),
            ) == v0.map_values(|e: Server| server_model(e)).to_multiset(),
            forall|i: int, j: int| 0 <= i < j < out@.len() ==> server_le(out@[i], out@[j]),
        decreases rem@.len(),
    {
        let ghost old_rem = rem@;
        let ghost old_out = out@;
        let x = rem.remove(0);
        proof {
            assert(old_rem.map_values(|e: Server| server_model(e)).remove(0)
                =~= rem@.map_values(|e: Server| server_model(e)));
            assert(old_rem.map_values(|e: Server| server_model(e))[0] == server_model(x));
        }
        let mut p: usize = 0;
        while p < out.len() && server_le_exec(&out[p], &x)
            invariant_except_break
                0 <= p <= out@.len(),
                forall|j: int| 0 <= j < p ==> server_le(out@[j], x),
            ensures
                0 <= p <= out@.len(),
                forall|j: int| 0 <= j < p ==> server_le(out@[j], x),
                p < out@.len() ==> !server_le(out@[p as int], x),
            decreases out@.len() - p,
        {
            p = p + 1;
        }
        out.insert(p, x);
        proof {
            broadcast use vstd::seq_lib::group_to_multiset_ensures;

            assert forall|i: int, j: int|
                0 <= i < j < out@.len() implies server_le(out@[i], out@[j]) by {
                if j < p {
                    assert(out@[i] == old_out[i] && out@[j] == old_out[j]);
                } else if i < p && j == p {
                    assert(out@[i] == old_out[i] && out@[j] == x);
                } else if i < p && j > p {
                    assert(out@[i] == old_out[i] && out@[j] == old_out[j - 1]);
                } else if i == p {
                    assert(out@[i] == x && out@[j] == old_out[j - 1]);
                    assert(!server_le(old_out[p as int], x));
                    lemma_server_le_total(old_out[p as int], x);
                    assert(server_le(x, old_out[p as int]));
                    if j - 1 > p {
                        assert(server_le(old_out[p as int], old_out[j - 1]));
                        lemma_server_le_trans(x, old_out[p as int], old_out[j - 1]);
                    }
                } else {
                    assert(out@[i] == old_out[i - 1] && out@[j] == old_out[j - 1]);
                }
            }
            let f = |e: Server| server_model(e);
            assert(out@.map_values(f) =~= old_out.map_values(f).insert(
                p as int,
                server_model(x),
            ));
            lemma_server_map_multiset_insert(old_out, x, p as int);
            assert(out@.map_values(f).to_multiset() =~= old_out.map_values(f).to_multiset()
                .insert(server_model(x)));
            let mr = old_rem.map_values(f);
            assert(mr.remove(0).to_multiset() =~= mr.to_multiset().remove(mr[0]));
            assert(mr.contains(server_model(x))) by {
                assert(mr[0] == server_model(x));
            }
            assert(mr.to_multiset().count(server_model(x)) > 0);
            assert(mr.to_multiset() =~= mr.to_multiset().remove(server_model(x)).insert(
                server_model(x),
            ));
            assert(old_rem.map_values(f).to_multiset() =~= rem@.map_values(f).to_multiset()
                .insert(server_model(x)));
            assert(out@.map_values(f).to_multiset().add(rem@.map_values(f).to_multiset())
                =~= v0.map_values(f).to_multiset());
        }
    }
    proof {
        broadcast use vstd::seq_lib::group_to_multiset_ensures;

        assert(rem@.map_values(|e: Server| server_model(e)).to_multiset()
            =~= vstd::multiset::Multiset::<
            (Seq<char>, Seq<char>, Seq<char>, Seq<char>, u16, Option<Seq<char>>),
        >::empty());
        assert(out@.map_values(|e: Server| server_model(e)).to_multiset() =~= v0.map_values(
            |e: Server| server_model(e),
        ).to_multiset());
    }
    out
}

/// Inserting a server into a sequence inserts its record into the mapped
/// multiset.
proof fn lemma_server_map_multiset_insert(s: Seq<Server>, x: Server, p: int)
    requires
        0 <= p <= s.len(),
    ensures
        s.map_values(|e: Server| server_model(e)).insert(p, server_model(x)).to_multiset()
            == s.map_values(|e: Server| server_model(e)).to_multiset().insert(
            server_model(x),
        ),
{
    broadcast use vstd::seq_lib::group_to_multiset_ensures;

    let f = |e: Server| server_model(e);
    let m = s.map_values(f);
    let ins = m.insert(p, f(x));
    assert(ins.remove(p) =~= m);
    assert(ins[p] == f(x));
    assert(ins.remove(p).to_multiset() =~= ins.to_multiset().remove(f(x)));
    assert(ins.to_multiset().contains(f(x))) by {
        assert(ins[p] == f(x));
        assert(ins.contains(f(x)));
    }
    assert(ins.to_multiset() =~= ins.to_multiset().remove(f(x)).insert(f(x)));
}

} // verus!
