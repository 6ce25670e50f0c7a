//! The in-cave messaging-bus client. The bus bridge drops inbound mail into
//! a cave inbox file and drains a cave outbox file; this side reads the inbox
//! (from a cursor) and appends to the outbox, with the agent's `role@cave`
//! address as its identity.

use vstd::prelude::*;
use std::path::{Path, PathBuf};
use crate::text::{chars_of, names, opt_str, slice_chars, string_of, trim, trim_chars};

verus! {

/// Free-text messages.
pub const KIND_UNSTRUCTURED: &'static str = "unstructured";

/// Typed JSON bodies (e.g. a work handover).
pub const KIND_STRUCTURED: &'static str = "structured";

#[verifier::external_type_specification]
#[verifier::external_body]
pub struct ExPathBuf(PathBuf);

#[verifier::external_type_specification]
#[verifier::external_body]
pub struct ExPath(Path);

/// One bus message, in the shape the bridge writes and reads.
pub struct BusMessage {
    pub id: i64,
    pub sender: String,
    pub recipient: String,
    pub kind: String,
    pub body: String,
    pub ref_id: Option<String>,
    pub channel: Option<String>,
}

/// Name for the owned path std's `Path::to_path_buf` builds from `p`.
pub uninterp spec fn owned_path_of(p: &Path) -> PathBuf;

/// Name for the path std's `Path::with_extension` builds from `p` and the
/// extension `ext`.
pub uninterp spec fn path_with_extension_of(p: &Path, ext: Seq<char>) -> PathBuf;

/// std `Path::to_path_buf`: an owned copy of `p`, named `owned_path_of`; the
/// same path always gives the same copy. Nothing more is claimed.
#[verifier::external_body]
pub(crate) fn owned_path(p: &Path) -> (r: PathBuf)
    ensures
        r == owned_path_of(p),
{
    p.to_path_buf()
}

/// std `Path::with_extension`: `p` with its extension replaced by `ext`,
/// named `path_with_extension_of`. Nothing more is claimed. std panics when
/// the extension holds a path separator, so `ext` must hold none.
#[verifier::external_body]
fn path_with_extension(p: &Path, ext: &str) -> (r: PathBuf)
    requires
        forall|i: int| 0 <= i < ext@.len() ==> ext@[i] != '/',
    ensures
        r == path_with_extension_of(p, ext@),
{
    p.with_extension(ext)
}

/// The bus client: our address, the inbox and outbox files, and the cursor
/// file recording how many inbox lines were already consumed (a crash
/// re-reads from the cursor: at-least-once).
pub struct BusClient {
    address: String,
    inbox: PathBuf,
    outbox: PathBuf,
    cursor: PathBuf,
}

impl BusClient {
    /// The client's bus identity (`role@cave`).
    pub closed spec fn address_spec(&self) -> Seq<char> {
        self.address@
    }

    /// The inbox file the client reads.
    pub closed spec fn inbox_spec(&self) -> PathBuf {
        self.inbox
    }

    /// The outbox file the client appends to.
    pub closed spec fn outbox_spec(&self) -> PathBuf {
        self.outbox
    }

    /// The file holding the count of inbox lines already consumed.
    pub closed spec fn cursor_spec(&self) -> PathBuf {
        self.cursor
    }

    /// A client for `address`, reading `inbox` and appending to `outbox`;
    /// the cursor file sits beside the inbox with the extension `cursor`.
    pub fn new(address: &str, inbox: &Path, outbox: &Path) -> (c: Self)
        ensures
            c.address_spec() == address@,
            c.inbox_spec() == owned_path_of(inbox),
            c.outbox_spec() == owned_path_of(outbox),
            c.cursor_spec() == path_with_extension_of(inbox, "cursor"@),
    {
        proof {
            reveal_strlit("cursor");
        }
        let cursor = path_with_extension(inbox, "cursor");
        BusClient {
            address: string_of(&chars_of(address)),
            inbox: owned_path(inbox),
            outbox: owned_path(outbox),
            cursor,
        }
    }

    /// Our address.
    pub fn address(&self) -> (r: &str)
        ensures
            r@ == self.address_spec(),
    {
        self.address.as_str()
    }

    /// The inbox file.
    pub fn inbox_path(&self) -> (r: &PathBuf)
        ensures
            *r == self.inbox_spec(),
    {
        &self.inbox
    }

    /// The outbox file.
    pub fn outbox_path(&self) -> (r: &PathBuf)
        ensures
            *r == self.outbox_spec(),
    {
        &self.outbox
    }

    /// The cursor file (beside the inbox, extension `cursor`).
    pub fn cursor_path(&self) -> (r: &PathBuf)
        ensures
            *r == self.cursor_spec(),
    {
        &self.cursor
    }

    /// The message to append to the outbox for `to`: stamped with our own
    /// address as sender, no id and no channel.
    pub fn message_to(&self, to: &str, kind: &str, body: &str, ref_id: Option<&str>) -> (m: BusMessage)
        ensures
            m.id == 0,
            m.sender@ == self.address_spec(),
            m.recipient@ == to@,
            m.kind@ == kind@,
            m.body@ == body@,
            opt_str(m.ref_id) == (match ref_id {
                Some(r) => Some(r@),
                None => None::<Seq<char>>,
            }),
            m.channel is None,
    {
        BusMessage {
            id: 0,
            sender: self.address.clone(),
            recipient: string_of(&chars_of(to)),
            kind: string_of(&chars_of(kind)),
            body: string_of(&chars_of(body)),
            ref_id: match ref_id {
                Some(r) => Some(string_of(&chars_of(r))),
                None => None,
            },
            channel: None,
        }
    }

    /// A free-text message for `to`: what `message_to` gives for the
    /// unstructured kind and no ref.
    pub fn inform(&self, to: &str, body: &str) -> (m: BusMessage)
        ensures
            m.id == 0,
            m.sender@ == self.address_spec(),
            m.recipient@ == to@,
            m.kind@ == "unstructured"@,
            m.body@ == body@,
            m.ref_id is None,
            m.channel is None,
    {
        self.message_to(to, "unstructured", body, None)
    }
}

/// The inbox lines not yet consumed: those after the first `consumed`,
/// trimmed, blank ones dropped.
pub open spec fn pending_spec(lines: Seq<String>, consumed: nat) -> Seq<Seq<char>>
    decreases lines.len(),
{
    if lines.len() <= consumed {
        Seq::empty()
    } else {
        pending_spec(lines.drop_last(), consumed) + (if trim(lines.last()@).len() == 0 {
            Seq::empty()
        } else {
            seq![trim(lines.last()@)]
        })
    }
}

/// The unconsumed, non-blank inbox lines, trimmed, in order.
pub fn pending_lines(lines: &[String], consumed: usize) -> (r: Vec<String>)
    ensures
        names(r@) == pending_spec(lines@, consumed as nat),
{
    let mut out: Vec<String> = Vec::new();
    let mut i: usize = consumed;
    if i > lines.len() {
        i = lines.len();
    }
    proof {
        lemma_pending_prefix(lines@, consumed as nat, i as int);
    }
    while i < lines.len()
        invariant
            i <= lines@.len(),
            consumed <= i || i == lines@.len(),
            names(out@) == pending_spec(lines@.subrange(0, i as int), consumed as nat),
        decreases lines.len() - i,
    {
        let t = trim_chars(&chars_of(lines[i].as_str()));
        let ghost o = names(out@);
        assert(lines@.subrange(0, i + 1).drop_last() =~= lines@.subrange(0, i as int));
        if t.len() > 0 {
            let s = string_of(&t);
            out.push(s);
            assert(names(out@) =~= o.push(s@));
        }
        i = i + 1;
    }
    assert(lines@.subrange(0, lines@.len() as int) =~= lines@);
    out
}

proof fn lemma_pending_prefix(lines: Seq<String>, consumed: nat, i: int)
    requires
        0 <= i <= lines.len(),
        i <= consumed,
    ensures
        pending_spec(lines.subrange(0, i), consumed) == Seq::<Seq<char>>::empty(),
{
}

/// Each inbox line is handed out once: once the cursor stands at the end of
/// what was read, a later read yields exactly the non-blank lines appended
/// since (trimmed, in order), and nothing read before.
pub proof fn law_inbox_reads_only_new_lines(read: Seq<String>, appended: Seq<String>)
    ensures
        pending_spec(read + appended, read.len()) == pending_spec(appended, 0),
        pending_spec(read, read.len()) == Seq::<Seq<char>>::empty(),
    decreases appended.len(),
{
    if appended.len() == 0 {
        assert(read + appended =~= read);
    } else {
        assert((read + appended).drop_last() =~= read + appended.drop_last());
        assert((read + appended).last() == appended.last());
        law_inbox_reads_only_new_lines(read, appended.drop_last());
    }
}

/// The decimal value of the digits `d`.
pub open spec fn dec_value(d: Seq<char>) -> nat
    decreases d.len(),
{
    if d.len() == 0 {
        0
    } else {
        dec_value(d.drop_last()) * 10 + ((d.last() as u32) - ('0' as u32)) as nat
    }
}

/// Every character of `d` is an ASCII digit.
pub open spec fn all_digits(d: Seq<char>) -> bool {
    forall|i: int| 0 <= i < d.len() ==> '0' <= #[trigger] d[i] <= '9'
}

/// The stored cursor: the trimmed text as a `usize` (an optional `+` then
/// decimal digits, in range), and `0` for anything else.
pub open spec fn cursor_value(s: Seq<char>) -> nat {
    let t = trim(s);
    let d = if t.len() > 0 && t[0] == '+' {
        t.drop_first()
    } else {
        t
    };
    if d.len() > 0 && all_digits(d) && dec_value(d) <= usize::MAX {
        dec_value(d)
    } else {
        0
    }
}

/// Reads the cursor file's text.
pub fn parse_cursor(s: &str) -> (r: usize)
    ensures
        r == cursor_value(s@),
{
    let t = trim_chars(&chars_of(s));
    let d = if t.len() > 0 && t[0] == '+' {
        slice_chars(&t, 1, t.len())
    } else {
        t
    };
    proof {
        if t@.len() > 0 && t@[0] == '+' {
            assert(d@ =~= t@.drop_first());
        }
    }
    assert(cursor_value(s@) == (if d@.len() > 0 && all_digits(d@) && dec_value(d@) <= usize::MAX {
        dec_value(d@)
    } else {
        0
    }));
    if d.len() == 0 {
        return 0;
    }
    let mut v: usize = 0;
    let mut i: usize = 0;
    while i < d.len()
        invariant
            i <= d@.len(),
            cursor_value(s@) == (if d@.len() > 0 && all_digits(d@) && dec_value(d@) <= usize::MAX {
                dec_value(d@)
            } else {
                0
            }),
            all_digits(d@.subrange(0, i as int)),
            v == dec_value(d@.subrange(0, i as int)),
        decreases d.len() - i,
    {
        let c = d[i];
        assert(d@.subrange(0, i + 1).drop_last() =~= d@.subrange(0, i as int));
        if c < '0' || c > '9' {
            assert(!all_digits(d@)) by {
                assert(d@[i as int] == c);
            }
            return 0;
        }
        let digit: usize = ((c as u32) - ('0' as u32)) as usize;
        if v > (usize::MAX - digit) / 10 {
            proof {
                let p = d@.subrange(0, i + 1);
                assert(p.last() == c);
                assert(dec_value(p) == v * 10 + digit);
                assert(v * 10 + digit > usize::MAX) by (nonlinear_arith)
                    requires
                        v > (usize::MAX - digit) / 10,
                        digit <= 9,
                ;
                if all_digits(d@) {
                    lemma_dec_value_prefix(d@, i + 1);
                }
            }
            return 0;
        }
        v = v * 10 + digit;
        i = i + 1;
    }
    assert(d@.subrange(0, d@.len() as int) =~= d@);
    v
}

proof fn lemma_dec_value_prefix(d: Seq<char>, k: int)
    requires
        0 <= k <= d.len(),
        all_digits(d),
    ensures
        dec_value(d) >= dec_value(d.subrange(0, k)),
    decreases d.len() - k,
{
    if k == d.len() {
        assert(d.subrange(0, k) =~= d);
    } else {
        lemma_dec_value_prefix(d, k + 1);
        assert(d.subrange(0, k + 1).drop_last() =~= d.subrange(0, k));
    }
}

} // verus!
