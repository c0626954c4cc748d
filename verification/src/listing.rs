//! The connection listing: its modes, the add/edit form, and the
//! navigation and filtering state machine.
use vstd::prelude::*;
use vstd::string::StringExecFns;

use crate::event::{Action, Event, KeyCode};
use crate::sgr::{all_digits, digits_val};
use crate::ssh::SSHConnection;
use crate::text::{
    chars_to_string, dec_digits, lower_of, lowercase, str_to_chars, trim_chars, trim_spec,
    u64_to_string,
};

verus! {

/// What the listing screen is doing.
#[derive(Debug, Clone, PartialEq, Eq, Structural)]
pub enum ListingMode {
    /// Normal navigation.
    Browse,
    /// The user is typing a filter string.
    Filtering,
    /// The user is filling in the add/edit form.
    Editing { is_new: bool },
    /// Confirm a delete.
    ConfirmDelete,
}

/// How many fields the form has.
pub const FIELD_COUNT: usize = 7;

/// Form state for adding or editing a connection.
#[derive(Debug, Clone)]
pub struct EditForm {
    pub name: String,
    pub description: String,
    pub hostname: String,
    pub user: String,
    pub port: String,
    pub identity_file: String,
    pub extra_options: String,
    /// Which field is focused.
    pub field: usize,
}

/// What `str::parse::<u16>` accepts: an optional leading `+`, then one or
/// more decimal digits whose value fits in sixteen bits.
pub open spec fn parse_u16_spec(s: Seq<char>) -> Option<u16> {
    let t = if s.len() > 0 && s[0] == '+' {
        s.drop_first()
    } else {
        s
    };
    if t.len() == 0 || !all_digits(t) {
        Option::None
    } else if digits_val(t) > 65535 {
        Option::None
    } else {
        Option::Some(digits_val(t) as u16)
    }
}

/// Parse one port string as `str::parse::<u16>` would.
pub fn parse_u16_chars(cur: &Vec<char>) -> (r: Option<u16>)
    ensures
        r == parse_u16_spec(cur@),
{
    let ghost s = cur@;
    let mut j: usize = 0;
    if cur.len() > 0 && cur[0] == '+' {
        j = 1;
    }
    let ghost t = if s.len() > 0 && s[0] == '+' {
        s.drop_first()
    } else {
        s
    };
    assert(t =~= s.skip(j as int));
    if j == cur.len() {
        assert(t.len() == 0);
        return Option::None;
    }
    let mut val: u32 = 0;
    let mut too_big: bool = false;
    let ghost start = j as int;
    while j < cur.len()
        invariant
            start <= j <= cur.len(),
            s == cur@,
            t == s.skip(start),
            t == (if s.len() > 0 && s[0] == '+' {
                s.drop_first()
            } else {
                s
            }),
            0 <= start <= j,
            all_digits(t.take(j - start)),
            !too_big ==> val == digits_val(t.take(j - start)) && val <= 65535,
            too_big ==> digits_val(t.take(j - start)) > 65535,
        decreases cur.len() - j,
    {
        let c = cur[j];
        let cv = c as u32;
        if cv < 48 || cv > 57 {
            assert(!crate::sgr::spec_is_digit(t[j - start]));
            assert(!all_digits(t));
            return Option::None;
        }
        proof {
            assert(t.take(j + 1 - start).drop_last() =~= t.take(j - start));
            assert(t.take(j + 1 - start).last() == t[j - start]);
        }
        if too_big {
            proof {
                crate::sgr::lemma_digits_val_grows(t.take(j + 1 - start));
            }
        } else {
            let d = cv - 48;
            if val * 10 + d > 65535 {
                too_big = true;
                val = 0;
            } else {
                val = val * 10 + d;
            }
        }
        j = j + 1;
    }
    assert(t.take(j - start) =~= t);
    if too_big {
        Option::None
    } else {
        Option::Some(val as u16)
    }
}

/// The option texts joined with a comma and a space.
pub open spec fn join_opts(opts: Seq<Seq<char>>) -> Seq<char>
    decreases opts.len(),
{
    if opts.len() == 0 {
        Seq::empty()
    } else {
        join_opts(opts.drop_last()) + (if opts.len() == 1 {
            Seq::<char>::empty()
        } else {
            seq![',', ' ']
        }) + opts.last()
    }
}

/// Splitting on commas, carried as a fold; the unfinished segment is the
/// last one.
pub open spec fn split_commas_loop(s: Seq<char>, cur: Seq<char>, acc: Seq<Seq<char>>) -> Seq<
    Seq<char>,
>
    decreases s.len(),
{
    if s.len() == 0 {
        acc.push(cur)
    } else if s[0] == ',' {
        split_commas_loop(s.drop_first(), Seq::empty(), acc.push(cur))
    } else {
        split_commas_loop(s.drop_first(), cur.push(s[0]), acc)
    }
}

pub open spec fn split_commas(s: Seq<char>) -> Seq<Seq<char>> {
    split_commas_loop(s, Seq::empty(), Seq::empty())
}

/// Each segment trimmed, empty ones dropped.
pub open spec fn clean_opts(segs: Seq<Seq<char>>) -> Seq<Seq<char>>
    decreases segs.len(),
{
    if segs.len() == 0 {
        Seq::empty()
    } else {
        clean_opts(segs.drop_last()) + (if trim_spec(segs.last()).len() > 0 {
            seq![trim_spec(segs.last())]
        } else {
            Seq::<Seq<char>>::empty()
        })
    }
}

/// Split an option string on commas, trim each piece, drop the empty ones.
fn split_options(s: &str) -> (r: Vec<String>)
    ensures
        r.deep_view() == clean_opts(split_commas(s@)),
{
    let chars = str_to_chars(s);
    let mut out: Vec<String> = Vec::new();
    let mut seg: Vec<char> = Vec::new();
    let mut i: usize = 0;
    let ghost mut segs_done: Seq<Seq<char>> = Seq::empty();
    proof {
        assert(chars@.skip(0) =~= chars@);
        assert(out.deep_view() =~= clean_opts(segs_done));
    }
    while i < chars.len()
        invariant
            0 <= i <= chars.len(),
            chars@ == s@,
            split_commas(s@) == split_commas_loop(chars@.skip(i as int), seg@, segs_done),
            out.deep_view() == clean_opts(segs_done),
        decreases chars.len() - i,
    {
        let c = chars[i];
        proof {
            assert(chars@.skip(i as int)[0] == chars@[i as int]);
            assert(chars@.skip(i as int).drop_first() =~= chars@.skip(i + 1));
        }
        if c == ',' {
            let ghost segv = seg@;
            let ghost prev = segs_done;
            let t = trim_chars(&seg);
            if t.len() > 0 {
                let ghost dv0 = out.deep_view();
                let piece = chars_to_string(&t);
                let ghost pv = piece@;
                out.push(piece);
                proof {
                    assert(out.deep_view() =~= dv0.push(pv));
                }
            }
            proof {
                segs_done = segs_done.push(segv);
                assert(segs_done.drop_last() =~= prev);
                assert(out.deep_view() =~= clean_opts(segs_done));
            }
            seg = Vec::new();
        } else {
            seg.push(c);
        }
        i = i + 1;
    }
    proof {
        assert(chars@.skip(i as int) =~= Seq::<char>::empty());
    }
    let ghost segv = seg@;
    let ghost prev = segs_done;
    let t = trim_chars(&seg);
    if t.len() > 0 {
        let ghost dv0 = out.deep_view();
        let piece = chars_to_string(&t);
        let ghost pv = piece@;
        out.push(piece);
        proof {
            assert(out.deep_view() =~= dv0.push(pv));
        }
    }
    proof {
        segs_done = segs_done.push(segv);
        assert(segs_done.drop_last() =~= prev);
        assert(out.deep_view() =~= clean_opts(segs_done));
    }
    out
}

/// Trim a string's text.
fn trim_string(s: &str) -> (r: String)
    ensures
        r@ == trim_spec(s@),
{
    let chars = str_to_chars(s);
    let t = trim_chars(&chars);
    chars_to_string(&t)
}

impl Default for EditForm {
    fn default() -> (f: EditForm)
        ensures
            f.name@.len() == 0,
            f.description@.len() == 0,
            f.hostname@.len() == 0,
            f.user@.len() == 0,
            f.port@.len() == 0,
            f.identity_file@.len() == 0,
            f.extra_options@.len() == 0,
            f.field == 0,
    {
        EditForm {
            name: String::new(),
            description: String::new(),
            hostname: String::new(),
            user: String::new(),
            port: String::new(),
            identity_file: String::new(),
            extra_options: String::new(),
            field: 0,
        }
    }
}

impl EditForm {
    /// The form filled in from an existing connection. A default port —
    /// zero or twenty-two — shows as an empty port field.
    pub fn from_connection(conn: &SSHConnection) -> (f: EditForm)
        ensures
            f.name@ == conn.name@,
            f.description@ == conn.description@,
            f.hostname@ == conn.hostname@,
            f.user@ == conn.user@,
            f.port@ == (if conn.port == 0 || conn.port == 22 {
                Seq::<char>::empty()
            } else {
                dec_digits(conn.port as int)
            }),
            f.identity_file@ == (match conn.identity_file {
                Option::Some(key) => key@,
                Option::None => Seq::<char>::empty(),
            }),
            f.extra_options@ == join_opts(conn.extra_options.deep_view()),
            f.field == 0,
    {
        let port = if conn.port == 0 || conn.port == 22 {
            String::new()
        } else {
            u64_to_string(conn.port as u64)
        };
        let identity_file = match &conn.identity_file {
            Option::Some(key) => key.clone(),
            Option::None => String::new(),
        };
        let ghost opts = conn.extra_options.deep_view();
        let mut extra_options = String::new();
        let mut i: usize = 0;
        proof {
            assert(join_opts(opts.take(0)) =~= Seq::<char>::empty());
        }
        while i < conn.extra_options.len()
            invariant
                0 <= i <= conn.extra_options@.len(),
                opts == conn.extra_options.deep_view(),
                extra_options@ == join_opts(opts.take(i as int)),
            decreases conn.extra_options@.len() - i,
        {
            proof {
                assert(opts.take(i + 1).drop_last() =~= opts.take(i as int));
                assert(opts.take(i + 1).last() == opts[i as int]);
            }
            if i > 0 {
                extra_options.push(',');
                extra_options.push(' ');
                proof {
                    assert(extra_options@ =~= join_opts(opts.take(i as int)) + seq![',', ' ']);
                }
            } else {
                proof {
                    assert(extra_options@ + Seq::<char>::empty() =~= extra_options@);
                }
            }
            extra_options.append(conn.extra_options[i].as_str());
            i = i + 1;
        }
        proof {
            assert(opts.take(i as int) =~= opts);
        }
        EditForm {
            name: conn.name.clone(),
            description: conn.description.clone(),
            hostname: conn.hostname.clone(),
            user: conn.user.clone(),
            port,
            identity_file,
            extra_options,
            field: 0,
        }
    }

    /// The connection this form describes: every text field trimmed, the
    /// port parsed with twenty-two as the fallback, an empty identity
    /// field as no key, and the options split on commas.
    pub fn to_connection(&self) -> (c: SSHConnection)
        ensures
            c.name@ == trim_spec(self.name@),
            c.description@ == trim_spec(self.description@),
            c.hostname@ == trim_spec(self.hostname@),
            c.user@ == trim_spec(self.user@),
            c.port == (match parse_u16_spec(self.port@) {
                Option::Some(p) => p,
                Option::None => 22u16,
            }),
            (trim_spec(self.identity_file@).len() == 0 ==> (c.identity_file is None)),
            (trim_spec(self.identity_file@).len() > 0 ==> (c.identity_file matches Option::Some(
                key,
            ) && key@ == trim_spec(self.identity_file@))),
            c.extra_options.deep_view() == clean_opts(split_commas(self.extra_options@)),
    {
        let port_chars = str_to_chars(self.port.as_str());
        let port = match parse_u16_chars(&port_chars) {
            Option::Some(p) => p,
            Option::None => 22,
        };
        let identity = trim_string(self.identity_file.as_str());
        let identity_file = if identity.as_str().is_empty() {
            Option::None
        } else {
            Option::Some(identity)
        };
        SSHConnection {
            name: trim_string(self.name.as_str()),
            description: trim_string(self.description.as_str()),
            hostname: trim_string(self.hostname.as_str()),
            user: trim_string(self.user.as_str()),
            port,
            identity_file,
            extra_options: split_options(self.extra_options.as_str()),
        }
    }

    /// Append a character to the focused field.
    pub fn push_char(&mut self, ch: char)
        ensures
            final(self).field == old(self).field,
            final(self).name@ == (if old(self).field == 0 {
                old(self).name@.push(ch)
            } else {
                old(self).name@
            }),
            final(self).description@ == (if old(self).field == 1 {
                old(self).description@.push(ch)
            } else {
                old(self).description@
            }),
            final(self).hostname@ == (if old(self).field == 2 {
                old(self).hostname@.push(ch)
            } else {
                old(self).hostname@
            }),
            final(self).user@ == (if old(self).field == 3 {
                old(self).user@.push(ch)
            } else {
                old(self).user@
            }),
            final(self).port@ == (if old(self).field == 4 {
                old(self).port@.push(ch)
            } else {
                old(self).port@
            }),
            final(self).identity_file@ == (if old(self).field == 5 {
                old(self).identity_file@.push(ch)
            } else {
                old(self).identity_file@
            }),
            final(self).extra_options@ == (if old(self).field >= 6 {
                old(self).extra_options@.push(ch)
            } else {
                old(self).extra_options@
            }),
    {
        if self.field == 0 {
            self.name.push(ch);
        } else if self.field == 1 {
            self.description.push(ch);
        } else if self.field == 2 {
            self.hostname.push(ch);
        } else if self.field == 3 {
            self.user.push(ch);
        } else if self.field == 4 {
            self.port.push(ch);
        } else if self.field == 5 {
            self.identity_file.push(ch);
        } else {
            self.extra_options.push(ch);
        }
    }

    /// Remove the last character of the focused field, if any.
    pub fn pop_char(&mut self)
        ensures
            final(self).field == old(self).field,
            final(self).name@ == (if old(self).field == 0 && old(self).name@.len() > 0 {
                old(self).name@.drop_last()
            } else {
                old(self).name@
            }),
            final(self).description@ == (if old(self).field == 1 && old(
                self,
            ).description@.len() > 0 {
                old(self).description@.drop_last()
            } else {
                old(self).description@
            }),
            final(self).hostname@ == (if old(self).field == 2 && old(self).hostname@.len() > 0 {
                old(self).hostname@.drop_last()
            } else {
                old(self).hostname@
            }),
            final(self).user@ == (if old(self).field == 3 && old(self).user@.len() > 0 {
                old(self).user@.drop_last()
            } else {
                old(self).user@
            }),
            final(self).port@ == (if old(self).field == 4 && old(self).port@.len() > 0 {
                old(self).port@.drop_last()
            } else {
                old(self).port@
            }),
            final(self).identity_file@ == (if old(self).field == 5 && old(
                self,
            ).identity_file@.len() > 0 {
                old(self).identity_file@.drop_last()
            } else {
                old(self).identity_file@
            }),
            final(self).extra_options@ == (if old(self).field >= 6 && old(
                self,
            ).extra_options@.len() > 0 {
                old(self).extra_options@.drop_last()
            } else {
                old(self).extra_options@
            }),
    {
        if self.field == 0 {
            let popped = self.name.pop();
        } else if self.field == 1 {
            let popped = self.description.pop();
        } else if self.field == 2 {
            let popped = self.hostname.pop();
        } else if self.field == 3 {
            let popped = self.user.pop();
        } else if self.field == 4 {
            let popped = self.port.pop();
        } else if self.field == 5 {
            let popped = self.identity_file.pop();
        } else {
            let popped = self.extra_options.pop();
        }
    }

    /// Focus the next field, wrapping around.
    pub fn next_field(&mut self)
        requires
            old(self).field < FIELD_COUNT,
        ensures
            final(self).field == (old(self).field + 1) % (FIELD_COUNT as int),
            final(self).name == old(self).name,
            final(self).description == old(self).description,
            final(self).hostname == old(self).hostname,
            final(self).user == old(self).user,
            final(self).port == old(self).port,
            final(self).identity_file == old(self).identity_file,
            final(self).extra_options == old(self).extra_options,
    {
        self.field = (self.field + 1) % FIELD_COUNT;
    }

    /// Focus the previous field, stopping at the first.
    pub fn prev_field(&mut self)
        ensures
            final(self).field == (if old(self).field >= 1 {
                old(self).field - 1
            } else {
                0int
            }),
            final(self).name == old(self).name,
            final(self).description == old(self).description,
            final(self).hostname == old(self).hostname,
            final(self).user == old(self).user,
            final(self).port == old(self).port,
            final(self).identity_file == old(self).identity_file,
            final(self).extra_options == old(self).extra_options,
    {
        if self.field >= 1 {
            self.field = self.field - 1;
        }
    }
}

/// Whether `needle` occurs inside `hay`.
pub open spec fn contains_seq(hay: Seq<char>, needle: Seq<char>) -> bool {
    exists|k: int|
        0 <= k <= hay.len() - needle.len() && #[trigger] hay.subrange(k, k + needle.len())
            == needle
}

fn contains_chars(hay: &Vec<char>, needle: &Vec<char>) -> (r: bool)
    ensures
        r == contains_seq(hay@, needle@),
{
    let hn = hay.len();
    let nn = needle.len();
    if nn > hn {
        proof {
            assert(hay@.len() - needle@.len() < 0);
        }
        return false;
    }
    if nn == 0 {
        proof {
            assert(hay@.subrange(0, 0 + needle@.len() as int) =~= needle@);
        }
        return true;
    }
    let last = hn - nn;
    let mut k: usize = 0;
    while k <= last
        invariant
            0 <= k <= last + 1,
            last == hay@.len() - needle@.len(),
            nn == needle@.len(),
            hn == hay@.len(),
            nn >= 1,
            needle@.len() <= hay@.len(),
            forall|m: int|
                0 <= m < k ==> #[trigger] hay@.subrange(m, m + needle@.len()) != needle@,
        decreases last + 1 - k,
    {
        let mut p: usize = 0;
        let mut hit = true;
        while p < nn && hit
            invariant
                0 <= p <= nn,
                nn == needle@.len(),
                hn == hay@.len(),
                k + nn <= hay@.len(),
                hit ==> forall|q: int| 0 <= q < p ==> hay@[k + q] == needle@[q],
                !hit ==> hay@.subrange(k as int, k + needle@.len()) != needle@,
            decreases nn - p + (if hit {
                1int
            } else {
                0int
            }),
        {
            if hay[k + p] != needle[p] {
                hit = false;
                proof {
                    let pi = p as int;
                    assert(hay@.subrange(k as int, k + needle@.len())[pi] != needle@[pi]);
                }
            } else {
                p = p + 1;
            }
        }
        if hit {
            proof {
                assert(p == nn);
                assert(hay@.subrange(k as int, k + needle@.len()) =~= needle@);
            }
            return true;
        }
        k = k + 1;
    }
    false
}

/// Whether a connection matches a lowercased filter: its name, hostname or
/// description, folded to lowercase, contains it.
pub open spec fn matches_filter(c: SSHConnection, f: Seq<char>) -> bool {
    contains_seq(lower_of(c.name@), f) || contains_seq(lower_of(c.hostname@), f) || contains_seq(
        lower_of(c.description@),
        f,
    )
}

/// The connection listing screen.
#[derive(Debug)]
pub struct ListingTab {
    pub connections: Vec<SSHConnection>,
    /// The highlighted row of the filtered list.
    pub selected: Option<usize>,
    pub mode: ListingMode,
    pub filter: String,
    pub form: EditForm,
    /// Which connection the form edits; none while adding.
    pub edit_index: Option<usize>,
}

impl ListingTab {
    /// A fresh listing; the first connection, when there is one, starts
    /// highlighted.
    pub fn new(connections: Vec<SSHConnection>) -> (t: ListingTab)
        ensures
            t.connections == connections,
            t.selected == (if connections@.len() > 0 {
                Option::Some(0usize)
            } else {
                Option::<usize>::None
            }),
            t.mode == ListingMode::Browse,
            t.filter@.len() == 0,
            (t.edit_index is None),
    {
        let selected = if connections.len() > 0 {
            Option::Some(0usize)
        } else {
            Option::None
        };
        ListingTab {
            connections,
            selected,
            mode: ListingMode::Browse,
            filter: String::new(),
            form: EditForm::default(),
            edit_index: Option::None,
        }
    }

    /// The indices of the connections the filter admits, in order. An
    /// empty filter admits every connection.
    #[verifier::rlimit(80)]
    pub fn filtered_indices(&self) -> (r: Vec<usize>)
        ensures
            (self.filter@.len() == 0 ==> r@.len() == self.connections@.len() && (forall|k: int|
                0 <= k < r@.len() ==> #[trigger] r@[k] == k)),
            (self.filter@.len() > 0 ==> {
                &&& (forall|k: int|
                    0 <= k < r@.len() ==> (#[trigger] r@[k]) < self.connections@.len()
                        && matches_filter(
                        self.connections@[r@[k] as int],
                        lower_of(self.filter@),
                    ))
                &&& (forall|k: int| 0 <= k < r@.len() - 1 ==> (#[trigger] r@[k]) < r@[k + 1])
                &&& (forall|j: int|
                    0 <= j < self.connections@.len() && matches_filter(
                        #[trigger] self.connections@[j],
                        lower_of(self.filter@),
                    ) ==> exists|k: int| 0 <= k < r@.len() && (#[trigger] r@[k]) == j)
            }),
    {
        let mut r: Vec<usize> = Vec::new();
        if self.filter.as_str().is_empty() {
            let mut j: usize = 0;
            while j < self.connections.len()
                invariant
                    0 <= j <= self.connections@.len(),
                    r@.len() == j,
                    forall|k: int| 0 <= k < r@.len() ==> #[trigger] r@[k] == k,
                decreases self.connections@.len() - j,
            {
                r.push(j);
                j = j + 1;
            }
            return r;
        }
        let fl = lowercase(self.filter.as_str());
        let f = str_to_chars(fl.as_str());
        let mut j: usize = 0;
        while j < self.connections.len()
            invariant
                0 <= j <= self.connections@.len(),
                f@ == lower_of(self.filter@),
                forall|k: int|
                    0 <= k < r@.len() ==> (#[trigger] r@[k]) < j && matches_filter(
                        self.connections@[r@[k] as int],
                        lower_of(self.filter@),
                    ),
                forall|k: int| 0 <= k < r@.len() - 1 ==> (#[trigger] r@[k]) < r@[k + 1],
                forall|m: int|
                    0 <= m < j && matches_filter(
                        #[trigger] self.connections@[m],
                        lower_of(self.filter@),
                    ) ==> exists|k: int| 0 <= k < r@.len() && (#[trigger] r@[k]) == m,
            decreases self.connections@.len() - j,
        {
            let c = &self.connections[j];
            let name_l = lowercase(c.name.as_str());
            let host_l = lowercase(c.hostname.as_str());
            let desc_l = lowercase(c.description.as_str());
            let name_c = str_to_chars(name_l.as_str());
            let host_c = str_to_chars(host_l.as_str());
            let desc_c = str_to_chars(desc_l.as_str());
            let hit = contains_chars(&name_c, &f) || contains_chars(&host_c, &f)
                || contains_chars(&desc_c, &f);
            proof {
                assert(hit == matches_filter(self.connections@[j as int], lower_of(self.filter@)));
            }
            let ghost r0 = r@;
            if hit {
                r.push(j);
                proof {
                    assert(r@[r@.len() - 1] == j);
                }
            }
            proof {
                let f0 = lower_of(self.filter@);
                assert forall|m: int|
                    0 <= m < j + 1 && matches_filter(#[trigger] self.connections@[m], f0)
                        implies exists|k: int| 0 <= k < r@.len() && (#[trigger] r@[k]) == m by {
                    if m == j {
                        assert(r@[r@.len() - 1] == m);
                    } else {
                        let k0 = choose|k: int| 0 <= k < r0.len() && (#[trigger] r0[k]) == m;
                        assert(r@[k0] == m);
                    }
                }
                assert forall|k: int| 0 <= k < r@.len() - 1 implies (#[trigger] r@[k]) < r@[k
                    + 1] by {
                    if k + 1 < r0.len() {
                        assert(r0[k] < r0[k + 1]);
                    } else {
                        assert(r@[k] == r0[k]);
                        assert(r0[k] < j);
                    }
                }
            }
            j = j + 1;
        }
        r
    }

    /// The highlighted connection, if the highlight points at one.
    pub fn selected_connection(&self) -> (r: Option<&SSHConnection>)
        ensures
            (r matches Option::Some(c) ==> exists|i: int|
                0 <= i < self.connections@.len() && self.connections@[i] == *c),
            (r matches Option::Some(c) ==> (self.filter@.len() > 0 ==> matches_filter(
                *c,
                lower_of(self.filter@),
            ))),
            ((self.selected is None) ==> (r is None)),
    {
        let indices = self.filtered_indices();
        match self.selected {
            Option::None => Option::None,
            Option::Some(sel) => {
                if sel < indices.len() {
                    let idx = indices[sel];
                    if idx < self.connections.len() {
                        proof {
                            assert(self.connections@[idx as int] == self.connections@[idx as int]);
                        }
                        Option::Some(&self.connections[idx])
                    } else {
                        Option::None
                    }
                } else {
                    Option::None
                }
            },
        }
    }

    /// Move the highlight one row down, stopping at the last filtered row.
    pub fn move_down(&mut self)
        ensures
            final(self).connections == old(self).connections,
            final(self).mode == old(self).mode,
            final(self).filter == old(self).filter,
    {
        let len = self.filtered_indices().len();
        if len == 0 {
            return;
        }
        let next = match self.selected {
            Option::Some(i) => {
                if i < len - 1 {
                    i + 1
                } else {
                    len - 1
                }
            },
            Option::None => 0,
        };
        self.selected = Option::Some(next);
    }

    /// Move the highlight one row up, stopping at the first.
    pub fn move_up(&mut self)
        ensures
            final(self).connections == old(self).connections,
            final(self).mode == old(self).mode,
            final(self).filter == old(self).filter,
            final(self).selected == (match old(self).selected {
                Option::Some(i) => Option::Some(
                    (if i >= 1 {
                        (i - 1) as usize
                    } else {
                        0usize
                    }),
                ),
                Option::None => Option::Some(0usize),
            }),
    {
        let prev = match self.selected {
            Option::Some(i) => {
                if i >= 1 {
                    i - 1
                } else {
                    0
                }
            },
            Option::None => 0,
        };
        self.selected = Option::Some(prev);
    }

    /// Open the form empty, for a new connection.
    pub fn start_add(&mut self)
        ensures
            final(self).mode == (ListingMode::Editing { is_new: true }),
            (final(self).edit_index is None),
            final(self).form.name@.len() == 0,
            final(self).form.field == 0,
            final(self).connections == old(self).connections,
    {
        self.form = EditForm::default();
        self.edit_index = Option::None;
        self.mode = ListingMode::Editing { is_new: true };
    }

    /// Open the form filled from the highlighted connection; with nothing
    /// highlighted, nothing happens.
    pub fn start_edit(&mut self)
        ensures
            final(self).connections == old(self).connections,
            final(self).filter == old(self).filter,
    {
        let indices = self.filtered_indices();
        let sel = match self.selected {
            Option::Some(s) => s,
            Option::None => {
                return;
            },
        };
        if sel >= indices.len() {
            return;
        }
        let idx = indices[sel];
        if idx >= self.connections.len() {
            return;
        }
        self.form = EditForm::from_connection(&self.connections[idx]);
        self.edit_index = Option::Some(idx);
        self.mode = ListingMode::Editing { is_new: false };
    }

    /// Ask for confirmation before deleting the highlighted connection.
    pub fn confirm_delete(&mut self)
        ensures
            final(self).connections == old(self).connections,
            final(self).filter == old(self).filter,
            final(self).selected == old(self).selected,
            ({
                let m = final(self).mode;
                m == ListingMode::ConfirmDelete || m == old(self).mode
            }),
    {
        let has = match self.selected_connection() {
            Option::Some(_) => true,
            Option::None => false,
        };
        if has {
            self.mode = ListingMode::ConfirmDelete;
        }
    }

    /// Delete the highlighted connection and return to browsing; the
    /// highlight stays in range afterwards.
    pub fn do_delete(&mut self)
        ensures
            final(self).mode == ListingMode::Browse,
            ({
                let n = final(self).connections@.len();
                n == old(self).connections@.len() || n + 1 == old(self).connections@.len()
            }),
    {
        let indices = self.filtered_indices();
        match self.selected {
            Option::Some(sel) => {
                if sel < indices.len() {
                    let idx = indices[sel];
                    if idx < self.connections.len() {
                        self.connections.remove(idx);
                        let new_len = self.filtered_indices().len();
                        if new_len == 0 {
                            self.selected = Option::None;
                        } else {
                            let keep = if sel < new_len - 1 {
                                sel
                            } else {
                                new_len - 1
                            };
                            self.selected = Option::Some(keep);
                        }
                    }
                }
            },
            Option::None => {},
        }
        self.mode = ListingMode::Browse;
    }

    /// Store the form: replace the edited connection, or append a new one
    /// and highlight it. Returns to browsing.
    pub fn save_form(&mut self)
        ensures
            final(self).mode == ListingMode::Browse,
            ({
                let after = final(self).connections@;
                let before = old(self).connections@;
                match old(self).edit_index {
                    Option::Some(idx) => (idx < before.len() ==> after.len() == before.len()
                        && after[idx as int].name@ == trim_spec(old(self).form.name@)),
                    Option::None => after.len() == before.len() + 1 && after.last().name@
                        == trim_spec(old(self).form.name@),
                }
            }),
    {
        let conn = self.form.to_connection();
        match self.edit_index {
            Option::Some(idx) => {
                if idx < self.connections.len() {
                    self.connections.remove(idx);
                    self.connections.insert(idx, conn);
                }
            },
            Option::None => {
                self.connections.push(conn);
                let last = self.connections.len() - 1;
                self.selected = Option::Some(last);
            },
        }
        self.mode = ListingMode::Browse;
    }

    /// Handle one input event according to the current mode: browsing
    /// navigates, filters, opens the form or asks to delete; filtering and
    /// the form edit their text; the confirmation accepts or declines.
    pub fn handle_event(&mut self, event: &Event) -> (action: Action)
        ensures
            ({
                let mode0 = old(self).mode;
                let mode1 = final(self).mode;
                let filter1 = final(self).filter;
                match *event {
                    Event::Key(code, _) => {
                        &&& ((mode0 == ListingMode::Browse && code == KeyCode::Enter) ==> (
                        action is Confirm) && *final(self) == *old(self))
                        &&& ((mode0 == ListingMode::Browse && code == KeyCode::Char('q')) ==> (
                        action is Quit) && *final(self) == *old(self))
                        &&& ((mode0 == ListingMode::Browse && code == KeyCode::Char('/'))
                            ==> mode1 == ListingMode::Filtering && filter1@.len() == 0)
                        &&& ((mode0 == ListingMode::Filtering && code == KeyCode::Esc) ==> mode1
                            == ListingMode::Browse && filter1@.len() == 0 && (action is Noop))
                        &&& ((mode0 == ListingMode::Filtering && code == KeyCode::Enter)
                            ==> mode1 == ListingMode::Browse && filter1 == old(self).filter && (
                        action is Noop))
                        &&& ((mode0 == ListingMode::Filtering && (code matches KeyCode::Char(ch)
                            && ch != '/')) ==> filter1@ == old(self).filter@.push(
                            code->Char_0,
                        ))
                        &&& (((mode0 matches ListingMode::Editing { .. }) && code
                            == KeyCode::Esc) ==> mode1 == ListingMode::Browse && (action
                        is Noop))
                        &&& ((mode0 == ListingMode::ConfirmDelete && code == KeyCode::Char('n'))
                            ==> mode1 == ListingMode::Browse && final(self).connections == old(
                            self,
                        ).connections)
                        &&& ((mode0 == ListingMode::ConfirmDelete && code == KeyCode::Char('y'))
                            ==> mode1 == ListingMode::Browse)
                    },
                    _ => (action is Noop) && *final(self) == *old(self),
                }
            }),
    {
        let (code, mods) = match *event {
            Event::Key(code, mods) => (code, mods),
            _ => {
                return Action::Noop;
            },
        };
        match self.mode {
            ListingMode::Browse => {
                match code {
                    KeyCode::Char('j') | KeyCode::Down => {
                        self.move_down();
                        Action::Noop
                    },
                    KeyCode::Char('k') | KeyCode::Up => {
                        self.move_up();
                        Action::Noop
                    },
                    KeyCode::Enter => Action::Confirm,
                    KeyCode::Char('a') => {
                        self.start_add();
                        Action::Noop
                    },
                    KeyCode::Char('e') => {
                        self.start_edit();
                        Action::Noop
                    },
                    KeyCode::Char('d') => {
                        self.confirm_delete();
                        Action::Noop
                    },
                    KeyCode::Char('/') => {
                        self.filter = String::new();
                        self.mode = ListingMode::Filtering;
                        Action::Noop
                    },
                    KeyCode::Char('q') => Action::Quit,
                    _ => Action::Noop,
                }
            },
            ListingMode::Filtering => {
                match code {
                    KeyCode::Esc => {
                        self.filter = String::new();
                        self.mode = ListingMode::Browse;
                        Action::Noop
                    },
                    KeyCode::Enter => {
                        self.mode = ListingMode::Browse;
                        Action::Noop
                    },
                    KeyCode::Backspace => {
                        let popped = self.filter.pop();
                        Action::Noop
                    },
                    KeyCode::Char(ch) => {
                        self.filter.push(ch);
                        Action::Noop
                    },
                    _ => Action::Noop,
                }
            },
            ListingMode::Editing { .. } => {
                match code {
                    KeyCode::Esc => {
                        self.mode = ListingMode::Browse;
                        Action::Noop
                    },
                    KeyCode::Enter => {
                        self.save_form();
                        Action::Noop
                    },
                    KeyCode::Tab => {
                        if self.form.field < FIELD_COUNT {
                            self.form.next_field();
                        }
                        Action::Noop
                    },
                    KeyCode::BackTab => {
                        self.form.prev_field();
                        Action::Noop
                    },
                    KeyCode::Backspace => {
                        self.form.pop_char();
                        Action::Noop
                    },
                    KeyCode::Char(ch) => {
                        self.form.push_char(ch);
                        Action::Noop
                    },
                    _ => Action::Noop,
                }
            },
            ListingMode::ConfirmDelete => {
                match code {
                    KeyCode::Char('y') => {
                        self.do_delete();
                        Action::Noop
                    },
                    KeyCode::Char('n') | KeyCode::Esc => {
                        self.mode = ListingMode::Browse;
                        Action::Noop
                    },
                    _ => Action::Noop,
                }
            },
        }
    }
}

} // verus!
