//! Reading and writing the user's connection list in ssh-config form.
//!
//! The caller does the file I/O; this module turns the file's text into
//! connections and back. Comment lines directly above a `Host` block
//! become its description; wildcard blocks are skipped; unknown keys are
//! kept as extra options.
use vstd::prelude::*;
use vstd::string::StringExecFns;

use crate::listing::{parse_u16_chars, parse_u16_spec};
use crate::llm::lines_of;
use crate::ssh::SSHConnection;
use crate::text::{
    chars_to_string, dec_digits, lower_of, lowercase, spec_is_whitespace, str_to_chars,
    trim_chars, trim_spec, u64_to_string,
};

verus! {

/// A connection as a mathematical value.
pub struct SpecConn {
    pub name: Seq<char>,
    pub description: Seq<char>,
    pub hostname: Seq<char>,
    pub user: Seq<char>,
    pub port: u16,
    pub identity_file: Option<Seq<char>>,
    pub extra_options: Seq<Seq<char>>,
}

/// The value of one connection.
pub open spec fn conn_view(c: SSHConnection) -> SpecConn {
    SpecConn {
        name: c.name@,
        description: c.description@,
        hostname: c.hostname@,
        user: c.user@,
        port: c.port,
        identity_file: match c.identity_file {
            Option::Some(k) => Option::Some(k@),
            Option::None => Option::None,
        },
        extra_options: c.extra_options.deep_view(),
    }
}

pub open spec fn empty_conn() -> SpecConn {
    SpecConn {
        name: Seq::empty(),
        description: Seq::empty(),
        hostname: Seq::empty(),
        user: Seq::empty(),
        port: 0,
        identity_file: Option::None,
        extra_options: Seq::empty(),
    }
}

/// The parser's running state: finished blocks, the open block, and the
/// comment text gathered for the next block.
pub struct ParseState {
    pub conns: Seq<SpecConn>,
    pub current: Option<SpecConn>,
    pub pending: Seq<char>,
}

/// Leading number signs removed.
pub open spec fn drop_hashes(s: Seq<char>) -> Seq<char>
    decreases s.len(),
{
    if s.len() > 0 && s[0] == '#' {
        drop_hashes(s.drop_first())
    } else {
        s
    }
}

/// The line split at its first whitespace character, which is consumed.
pub open spec fn first_ws(s: Seq<char>) -> int
    decreases s.len(),
{
    if s.len() == 0 {
        -1
    } else if spec_is_whitespace(s[0]) {
        0
    } else {
        let r = first_ws(s.drop_first());
        if r < 0 {
            -1
        } else {
            r + 1
        }
    }
}

/// How one line advances the parser.
pub open spec fn config_step(st: ParseState, line: Seq<char>) -> ParseState {
    let trimmed = trim_spec(line);
    if trimmed.len() > 0 && trimmed[0] == '#' {
        let comment = trim_spec(drop_hashes(trimmed));
        let pending = if st.pending.len() > 0 {
            st.pending + seq![' '] + comment
        } else {
            comment
        };
        ParseState { pending, ..st }
    } else if trimmed.len() == 0 {
        if st.current is None {
            ParseState { pending: Seq::empty(), ..st }
        } else {
            st
        }
    } else {
        let i = first_ws(trimmed);
        if i < 0 {
            st
        } else {
            let key = lower_of(trimmed.take(i));
            let value = trim_spec(trimmed.skip(i + 1));
            let flushed = match st.current {
                Option::Some(c) => st.conns.push(c),
                Option::None => st.conns,
            };
            if key == "host"@ {
                if value == "*"@ {
                    ParseState { conns: flushed, current: Option::None, pending: Seq::empty() }
                } else {
                    ParseState {
                        conns: flushed,
                        current: Option::Some(
                            SpecConn { name: value, description: st.pending, ..empty_conn() },
                        ),
                        pending: Seq::empty(),
                    }
                }
            } else {
                match st.current {
                    Option::None => st,
                    Option::Some(c) => {
                        let c2 = if key == "hostname"@ {
                            SpecConn { hostname: value, ..c }
                        } else if key == "user"@ {
                            SpecConn { user: value, ..c }
                        } else if key == "port"@ {
                            SpecConn {
                                port: match parse_u16_spec(value) {
                                    Option::Some(p) => p,
                                    Option::None => 22u16,
                                },
                                ..c
                            }
                        } else if key == "identityfile"@ {
                            SpecConn { identity_file: Option::Some(value), ..c }
                        } else {
                            SpecConn {
                                extra_options: c.extra_options.push(key + seq![' '] + value),
                                ..c
                            }
                        };
                        ParseState { current: Option::Some(c2), ..st }
                    },
                }
            }
        }
    }
}

pub open spec fn config_fold(st: ParseState, lines: Seq<Seq<char>>) -> ParseState
    decreases lines.len(),
{
    if lines.len() == 0 {
        st
    } else {
        config_step(config_fold(st, lines.drop_last()), lines.last())
    }
}

/// The connections a config text describes: every finished block, plus
/// the block still open at the end.
pub open spec fn parse_config_spec(s: Seq<char>) -> Seq<SpecConn> {
    let st0 = ParseState { conns: Seq::empty(), current: Option::None, pending: Seq::empty() };
    let st = config_fold(st0, lines_of(s));
    match st.current {
        Option::Some(c) => st.conns.push(c),
        Option::None => st.conns,
    }
}

/// One parsed connection matches its description.
pub open spec fn conn_matches(c: SSHConnection, s: SpecConn) -> bool {
    conn_view(c) == s
}

fn string_eq_lit(s: &String, lit: &str) -> (r: bool)
    ensures
        r == (s@ == lit@),
{
    let other = String::from_str(lit);
    *s == other
}

/// Split one trimmed line at its first whitespace character.
fn split_key_value(line: &Vec<char>) -> (r: Option<(Vec<char>, Vec<char>)>)
    ensures
        first_ws(line@) < 0 ==> (r is None),
        first_ws(line@) >= 0 ==> (r matches Option::Some((k, v)) && k@ == line@.take(
            first_ws(line@),
        ) && v@ == line@.skip(first_ws(line@) + 1)),
{
    let n = line.len();
    let mut i: usize = 0;
    proof {
        assert(line@.skip(0) =~= line@);
    }
    while i < n && !crate::text::is_whitespace_char(line[i])
        invariant
            0 <= i <= n,
            n == line@.len(),
            first_ws(line@) == (if first_ws(line@.skip(i as int)) < 0 {
                -1int
            } else {
                first_ws(line@.skip(i as int)) + i
            }),
        decreases n - i,
    {
        proof {
            assert(line@.skip(i as int)[0] == line@[i as int]);
            assert(line@.skip(i as int).drop_first() =~= line@.skip(i + 1));
        }
        i = i + 1;
    }
    if i == n {
        proof {
            assert(line@.skip(i as int) =~= Seq::<char>::empty());
            assert(first_ws(line@) < 0);
        }
        return Option::None;
    }
    proof {
        assert(line@.skip(i as int)[0] == line@[i as int]);
        assert(first_ws(line@.skip(i as int)) == 0);
        assert(first_ws(line@) == i);
    }
    let mut k: Vec<char> = Vec::new();
    let mut j: usize = 0;
    while j < i
        invariant
            0 <= j <= i < n,
            n == line@.len(),
            k@ =~= line@.take(i as int).take(j as int),
        decreases i - j,
    {
        k.push(line[j]);
        proof {
            assert(line@.take(i as int)[j as int] == line@[j as int]);
            assert(k@ =~= line@.take(i as int).take(j + 1));
        }
        j = j + 1;
    }
    proof {
        assert(line@.take(i as int).take(i as int) =~= line@.take(i as int));
    }
    let mut v: Vec<char> = Vec::new();
    let mut m: usize = i + 1;
    proof {
        assert(v@ =~= line@.skip(i + 1).take(0));
    }
    while m < n
        invariant
            i + 1 <= m <= n,
            n == line@.len(),
            v@ =~= line@.skip(i + 1).take(m - i - 1),
        decreases n - m,
    {
        v.push(line[m]);
        proof {
            assert(line@.skip(i + 1)[m - i - 1] == line@[m as int]);
            assert(v@ =~= line@.skip(i + 1).take(m - i));
        }
        m = m + 1;
    }
    proof {
        assert(line@.skip(i + 1).take(n - i - 1) =~= line@.skip(i + 1));
    }
    Option::Some((k, v))
}

/// Parse a whole config text into connections.
pub fn parse_connections(content: &str) -> (conns: Vec<SSHConnection>)
    ensures
        conns@.len() == parse_config_spec(content@).len(),
        forall|i: int|
            0 <= i < conns@.len() ==> conn_matches(
                #[trigger] conns@[i],
                parse_config_spec(content@)[i],
            ),
{
    let lines = crate::llm::split_text_lines(content);
    let ghost lv = lines.deep_view();
    let mut conns: Vec<SSHConnection> = Vec::new();
    let mut cur = SSHConnection::default();
    let mut has_current: bool = false;
    let mut pending: Vec<char> = Vec::new();
    let mut i: usize = 0;
    let ghost st0 = ParseState {
        conns: Seq::empty(),
        current: Option::None,
        pending: Seq::empty(),
    };
    proof {
        assert(lv.take(0) =~= Seq::<Seq<char>>::empty());
    }
    while i < lines.len()
        invariant
            0 <= i <= lines@.len(),
            lv == lines.deep_view(),
            ({
                let st = config_fold(st0, lv.take(i as int));
                &&& conns@.len() == st.conns.len()
                &&& (forall|m: int|
                    0 <= m < conns@.len() ==> conn_matches(#[trigger] conns@[m], st.conns[m]))
                &&& has_current == (st.current is Some)
                &&& (has_current ==> conn_matches(cur, st.current->0))
                &&& pending@ == st.pending
            }),
        decreases lines@.len() - i,
    {
        proof {
            assert(lv.take(i + 1).drop_last() =~= lv.take(i as int));
            assert(lv.take(i + 1).last() == lv[i as int]);
            assert(lv[i as int] =~= lines@[i as int]@);
        }
        let ghost st_pre = config_fold(st0, lv.take(i as int));
        let ghost st_post = config_step(st_pre, lv[i as int]);
        proof {
            assert(config_fold(st0, lv.take(i + 1)) == st_post);
        }
        let trimmed = trim_chars(&lines[i]);
        if trimmed.len() > 0 && trimmed[0] == '#' {
            let mut h: usize = 0;
            proof {
                assert(trimmed@.skip(0) =~= trimmed@);
            }
            while h < trimmed.len() && trimmed[h] == '#'
                invariant
                    0 <= h <= trimmed@.len(),
                    drop_hashes(trimmed@) == drop_hashes(trimmed@.skip(h as int)),
                decreases trimmed@.len() - h,
            {
                proof {
                    assert(trimmed@.skip(h as int)[0] == trimmed@[h as int]);
                    assert(trimmed@.skip(h as int).drop_first() =~= trimmed@.skip(h + 1));
                }
                h = h + 1;
            }
            proof {
                assert(drop_hashes(trimmed@.skip(h as int)) == trimmed@.skip(h as int));
            }
            let mut rest: Vec<char> = Vec::new();
            let mut m = h;
            proof {
                assert(rest@ =~= trimmed@.skip(h as int).take(0));
            }
            while m < trimmed.len()
                invariant
                    h <= m <= trimmed@.len(),
                    rest@ =~= trimmed@.skip(h as int).take(m - h),
                decreases trimmed@.len() - m,
            {
                rest.push(trimmed[m]);
                proof {
                    assert(trimmed@.skip(h as int)[m - h] == trimmed@[m as int]);
                    assert(rest@ =~= trimmed@.skip(h as int).take(m + 1 - h));
                }
                m = m + 1;
            }
            proof {
                assert(trimmed@.skip(h as int).take(trimmed@.len() - h) =~= trimmed@.skip(
                    h as int,
                ));
            }
            let comment = trim_chars(&rest);
            let ghost pend0 = pending@;
            if pending.len() > 0 {
                pending.push(' ');
                let mut q: usize = 0;
                let ghost p0 = pending@;
                while q < comment.len()
                    invariant
                        0 <= q <= comment@.len(),
                        pending@ =~= p0 + comment@.take(q as int),
                    decreases comment@.len() - q,
                {
                    pending.push(comment[q]);
                    proof {
                        assert(pending@ =~= p0 + comment@.take(q + 1));
                    }
                    q = q + 1;
                }
                proof {
                    assert(comment@.take(comment@.len() as int) =~= comment@);
                    assert(pending@ =~= pend0 + seq![' '] + comment@);
                }
            } else {
                pending = comment;
            }
            proof {
                assert(comment@ == trim_spec(drop_hashes(trim_spec(lv[i as int]))));
                assert(pending@ == st_post.pending);
                assert(st_post.conns == st_pre.conns);
                assert(st_post.current == st_pre.current);
            }
        } else if trimmed.len() == 0 {
            if !has_current {
                pending = Vec::new();
            }
            proof {
                assert(st_post.conns == st_pre.conns);
                assert(st_post.current == st_pre.current);
                assert(pending@ == st_post.pending);
            }
        } else {
            match split_key_value(&trimmed) {
                Option::None => {
                    proof {
                        assert(st_post == st_pre);
                    }
                },
                Option::Some((kraw, vraw)) => {
                    let kstr = chars_to_string(&kraw);
                    let key = lowercase(kstr.as_str());
                    let value = trim_chars(&vraw);
                    let value_str = chars_to_string(&value);
                    let ghost fw = first_ws(trimmed@);
                    proof {
                        assert(key@ == lower_of(trim_spec(lv[i as int]).take(fw)));
                        assert(value@ == trim_spec(trim_spec(lv[i as int]).skip(fw + 1)));
                    }
                    if string_eq_lit(&key, "host") {
                        let ghost flushed = (match st_pre.current {
                            Option::Some(c) => st_pre.conns.push(c),
                            Option::None => st_pre.conns,
                        });
                        if has_current {
                            let ghost cview = conn_view(cur);
                            let ghost prev_len = conns@.len();
                            conns.push(cur);
                            proof {
                                assert(conns@[prev_len as int] == conns@.last());
                                assert(conn_matches(conns@.last(), st_pre.current->0));
                                assert(flushed.len() == conns@.len());
                                assert(forall|m: int|
                                    0 <= m < conns@.len() ==> conn_matches(
                                        #[trigger] conns@[m],
                                        flushed[m],
                                    ));
                            }
                            cur = SSHConnection::default();
                        } else {
                            proof {
                                assert(flushed == st_pre.conns);
                            }
                        }
                        if value.len() == 1 && value[0] == '*' {
                            proof {
                                reveal_strlit("*");
                                assert(value@ =~= "*"@);
                            }
                            has_current = false;
                            pending = Vec::new();
                            proof {
                                assert(st_post.conns == flushed);
                                assert(st_post.current is None);
                                assert(st_post.pending == Seq::<char>::empty());
                            }
                        } else {
                            proof {
                                reveal_strlit("*");
                                if value@ == "*"@ {
                                    assert(value@.len() == 1 && value@[0] == '*');
                                }
                                assert(value@ != "*"@);
                            }
                            cur = SSHConnection::default();
                            cur.name = value_str;
                            cur.description = chars_to_string(&pending);
                            has_current = true;
                            pending = Vec::new();
                            proof {
                                assert(cur.extra_options.deep_view() =~= Seq::<Seq<char>>::empty());
                                assert(conn_view(cur) == (SpecConn {
                                    name: value@,
                                    description: st_pre.pending,
                                    ..empty_conn()
                                }));
                                assert(st_post.conns == flushed);
                                assert(st_post.current == Option::Some(conn_view(cur)));
                                assert(st_post.pending == Seq::<char>::empty());
                            }
                        }
                    } else if !has_current {
                        proof {
                            assert(st_post == st_pre);
                        }
                    } else {
                        let ghost c0 = conn_view(cur);
                        if string_eq_lit(&key, "hostname") {
                            cur.hostname = value_str;
                            proof {
                                assert(conn_view(cur) == (SpecConn { hostname: value@, ..c0 }));
                            }
                        } else if string_eq_lit(&key, "user") {
                            cur.user = value_str;
                            proof {
                                assert(conn_view(cur) == (SpecConn { user: value@, ..c0 }));
                            }
                        } else if string_eq_lit(&key, "port") {
                            cur.port = match parse_u16_chars(&value) {
                                Option::Some(p) => p,
                                Option::None => 22,
                            };
                        } else if string_eq_lit(&key, "identityfile") {
                            cur.identity_file = Option::Some(value_str);
                            proof {
                                assert(conn_view(cur) == (SpecConn {
                                    identity_file: Option::Some(value@),
                                    ..c0
                                }));
                            }
                        } else {
                            let mut opt = key.clone();
                            opt.push(' ');
                            opt.append(value_str.as_str());
                            proof {
                                assert(opt@ =~= key@ + seq![' '] + value@);
                            }
                            let ghost optv = opt@;
                            let ghost before = cur.extra_options.deep_view();
                            cur.extra_options.push(opt);
                            proof {
                                assert(cur.extra_options.deep_view() =~= before.push(optv));
                                assert(conn_view(cur) == (SpecConn {
                                    extra_options: c0.extra_options.push(
                                        key@ + seq![' '] + value@,
                                    ),
                                    ..c0
                                }));
                            }
                        }
                        proof {
                            assert(st_post.conns == st_pre.conns);
                            assert(st_post.pending == st_pre.pending);
                            assert(st_post.current is Some);
                            assert(conn_matches(cur, st_post.current->0));
                        }
                    }
                },
            }
        }
        i = i + 1;
    }
    proof {
        assert(lv.take(i as int) =~= lv);
    }
    let ghost st_end = config_fold(st0, lv);
    if has_current {
        let ghost prev_len = conns@.len();
        conns.push(cur);
        proof {
            assert(conns@[prev_len as int] == conns@.last());
            assert(conn_matches(conns@.last(), st_end.current->0));
            assert(parse_config_spec(content@) == st_end.conns.push(st_end.current->0));
        }
    } else {
        proof {
            assert(parse_config_spec(content@) == st_end.conns);
        }
    }
    conns
}

/// What one connection writes back: its description as a comment, the
/// host line, the keys that differ from their defaults, and the extra
/// options, followed by a blank line.
pub open spec fn render_conn(c: SpecConn) -> Seq<char> {
    (if c.description.len() > 0 {
        "# "@ + c.description + seq!['\n']
    } else {
        Seq::<char>::empty()
    }) + "Host "@ + c.name + seq!['\n'] + "    HostName "@ + c.hostname + seq!['\n'] + "    User "@
        + c.user + seq!['\n'] + (if c.port != 0 && c.port != 22 {
        "    Port "@ + dec_digits(c.port as int) + seq!['\n']
    } else {
        Seq::<char>::empty()
    }) + (match c.identity_file {
        Option::Some(k) => "    IdentityFile "@ + k + seq!['\n'],
        Option::None => Seq::<char>::empty(),
    }) + render_opts(c.extra_options) + seq!['\n']
}

pub open spec fn render_opts(opts: Seq<Seq<char>>) -> Seq<char>
    decreases opts.len(),
{
    if opts.len() == 0 {
        Seq::empty()
    } else {
        render_opts(opts.drop_last()) + "    "@ + opts.last() + seq!['\n']
    }
}

pub open spec fn render_config(conns: Seq<SpecConn>) -> Seq<char>
    decreases conns.len(),
{
    if conns.len() == 0 {
        Seq::empty()
    } else {
        render_config(conns.drop_last()) + render_conn(conns.last())
    }
}

/// Write one connection's block.
#[verifier::rlimit(60)]
fn render_one(c: &SSHConnection) -> (out: String)
    ensures
        out@ == render_conn(conn_view(*c)),
{
    let mut out = String::new();
    if !c.description.as_str().is_empty() {
        out.append("# ");
        out.append(c.description.as_str());
        out.push('\n');
        proof {
            assert(out@ =~= "# "@ + c.description@ + seq!['\n']);
        }
    } else {
        proof {
            assert(out@ =~= Seq::<char>::empty());
        }
    }
    let ghost head = out@;
    out.append("Host ");
    out.append(c.name.as_str());
    out.push('\n');
    out.append("    HostName ");
    out.append(c.hostname.as_str());
    out.push('\n');
    out.append("    User ");
    out.append(c.user.as_str());
    out.push('\n');
    proof {
        assert(out@ =~= head + "Host "@ + c.name@ + seq!['\n'] + "    HostName "@ + c.hostname@
            + seq!['\n'] + "    User "@ + c.user@ + seq!['\n']);
    }
    let ghost head2 = out@;
    if c.port != 0 && c.port != 22 {
        out.append("    Port ");
        let digits = u64_to_string(c.port as u64);
        out.append(digits.as_str());
        out.push('\n');
        proof {
            assert(out@ =~= head2 + ("    Port "@ + dec_digits(c.port as int) + seq!['\n']));
        }
    } else {
        proof {
            assert(out@ =~= head2 + Seq::<char>::empty());
        }
    }
    let ghost head3 = out@;
    match &c.identity_file {
        Option::Some(k) => {
            out.append("    IdentityFile ");
            out.append(k.as_str());
            out.push('\n');
            proof {
                assert(out@ =~= head3 + ("    IdentityFile "@ + k@ + seq!['\n']));
            }
        },
        Option::None => {
            proof {
                assert(out@ =~= head3 + Seq::<char>::empty());
            }
        },
    }
    let ghost opts = c.extra_options.deep_view();
    let ghost mid = out@;
    let mut j: usize = 0;
    proof {
        assert(render_opts(opts.take(0)) =~= Seq::<char>::empty());
        assert(out@ =~= mid + render_opts(opts.take(0)));
    }
    while j < c.extra_options.len()
        invariant
            0 <= j <= c.extra_options@.len(),
            opts == c.extra_options.deep_view(),
            out@ == mid + render_opts(opts.take(j as int)),
        decreases c.extra_options@.len() - j,
    {
        proof {
            assert(opts.take(j + 1).drop_last() =~= opts.take(j as int));
            assert(opts.take(j + 1).last() == opts[j as int]);
        }
        out.append("    ");
        out.append(c.extra_options[j].as_str());
        out.push('\n');
        proof {
            assert(out@ =~= mid + render_opts(opts.take(j + 1)));
        }
        j = j + 1;
    }
    proof {
        assert(opts.take(j as int) =~= opts);
    }
    out.push('\n');
    proof {
        assert(out@ =~= render_conn(conn_view(*c)));
    }
    out
}

/// Write the connection list back in ssh-config form.
pub fn render_connections(conns: &Vec<SSHConnection>) -> (out: String)
    ensures
        out@ == render_config(conns@.map_values(|c: SSHConnection| conn_view(c))),
{
    let ghost cv = conns@.map_values(|c: SSHConnection| conn_view(c));
    let mut out = String::new();
    let mut i: usize = 0;
    proof {
        assert(cv.take(0) =~= Seq::<SpecConn>::empty());
    }
    while i < conns.len()
        invariant
            0 <= i <= conns@.len(),
            cv == conns@.map_values(|c: SSHConnection| conn_view(c)),
            out@ == render_config(cv.take(i as int)),
        decreases conns@.len() - i,
    {
        proof {
            assert(cv.take(i + 1).drop_last() =~= cv.take(i as int));
            assert(cv.take(i + 1).last() == cv[i as int]);
            assert(cv[i as int] == conn_view(conns@[i as int]));
        }
        let piece = render_one(&conns[i]);
        out.append(piece.as_str());
        proof {
            assert(out@ =~= render_config(cv.take(i + 1)));
        }
        i = i + 1;
    }
    proof {
        assert(cv.take(i as int) =~= cv);
    }
    out
}

} // verus!
