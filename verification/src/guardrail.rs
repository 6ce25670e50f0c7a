//! Capability ceiling + global red-lines.
//!
//! Every tool call is checked against two layers: the static global red-lines
//! (prohibitions no role may cross: destroying the host, the safety substrate,
//! regin's own governance, the firewall, root-equivalent accounts) and then the
//! editable per-role capability ceiling. Red-lines are checked first and win,
//! so a permissive ceiling can never grant a red-line action. Denials name the
//! deciding layer.
//!
//! Shell matching is heuristic by design (defense in depth, not a sandbox).

use vstd::prelude::*;
use crate::json::{json_str_member, json_string_member};
use crate::persona::{allows, allows_spec, Persona};
use crate::text::{
    chars_of, contains, contains_lit, copy_chars, ends_with, ends_with_exec, eq_lit,
    last_index_of, last_index_of_exec, lemma_last_index_of_bounds, lower_chars, lower_each,
    lower, push_all, push_lit, slice_chars, split_ws, starts_with, starts_with_lit,
    string_of, tokens_from, trim, views, wrap_lit, all_ascii, join, ascii_lower, is_ws, split_ws_from, trim_end, trim_start,
};

verus! {

/// Which layer rendered a denial.
#[derive(Debug, Clone, Copy, PartialEq, Eq, Structural)]
pub enum DecisionLayer {
    /// The static, non-runtime-adjustable global red-lines.
    RedLine,
    /// The editable per-role capability ceiling.
    Ceiling,
}

impl DecisionLayer {
    /// The layer's display name.
    pub open spec fn name_spec(self) -> Seq<char> {
        match self {
            DecisionLayer::RedLine => "red-line"@,
            DecisionLayer::Ceiling => "ceiling"@,
        }
    }

    /// The layer's display name (`red-line` / `ceiling`).
    pub fn name(&self) -> (r: &'static str)
        ensures
            r@ == self.name_spec(),
    {
        match self {
            DecisionLayer::RedLine => "red-line",
            DecisionLayer::Ceiling => "ceiling",
        }
    }
}

/// The outcome of a guardrail check.
#[derive(Debug, PartialEq, Eq)]
pub enum Decision {
    Allow,
    Deny { layer: DecisionLayer, reason: String },
}

impl Decision {
    /// Whether the call may proceed.
    pub fn is_allowed(&self) -> (r: bool)
        ensures
            r == (self is Allow),
    {
        matches!(self, Decision::Allow)
    }

    /// `[<layer>] <reason>` for a denial, `None` for an allow.
    pub fn audit(&self) -> (r: Option<String>)
        ensures
            match self {
                Decision::Allow => r is None,
                Decision::Deny { layer, reason } => r is Some && r->0@ == "["@ + layer.name_spec()
                    + "] "@ + reason@,
            },
    {
        match self {
            Decision::Allow => None,
            Decision::Deny { layer, reason } => {
                let mut out = chars_of("[");
                push_lit(&mut out, layer.name());
                push_lit(&mut out, "] ");
                push_lit(&mut out, reason.as_str());
                Some(string_of(&out))
            },
        }
    }
}

/// A function-call request emitted by the model.
pub struct FunctionCall {
    pub name: String,
    /// The JSON-encoded argument object.
    pub arguments: String,
}

/// A tool call.
pub struct ToolCall {
    pub id: String,
    pub call_type: String,
    pub function: FunctionCall,
}

// ---------------------------------------------------------------------------
// Specification of the red-lines
// ---------------------------------------------------------------------------

/// Fragments naming regin's own safety substrate / governance.
pub open spec fn hits_regin(a: Seq<char>) -> bool {
    let l = lower(a);
    ||| contains(l, ".local/share/regin"@)
    ||| contains(l, "regin.db"@)
    ||| contains(l, "kpi_events"@)
    ||| contains(l, "/usr/share/regin"@)
    ||| contains(l, "regind.service"@)
}

/// Fragments naming backups/snapshots.
pub open spec fn hits_backup(a: Seq<char>) -> bool {
    let l = lower(a);
    ||| contains(l, "backup"@)
    ||| contains(l, "snapshot"@)
    ||| contains(l, ".snapshots"@)
    ||| contains(l, "/var/backups"@)
}

/// Host authentication files (prefix match).
pub open spec fn is_auth_path(p: Seq<char>) -> bool {
    ||| starts_with(p, "/etc/shadow"@)
    ||| starts_with(p, "/etc/sudoers"@)
    ||| starts_with(p, "/etc/gshadow"@)
}

/// Regin-substrate fragments without re-lowercasing (the path is lowered once).
pub open spec fn names_regin(l: Seq<char>) -> bool {
    ||| contains(l, ".local/share/regin"@)
    ||| contains(l, "regin.db"@)
    ||| contains(l, "kpi_events"@)
    ||| contains(l, "/usr/share/regin"@)
    ||| contains(l, "regind.service"@)
}

/// Red-line reason for writing `path` with the file tools.
pub open spec fn write_path_violation(path: Seq<char>) -> Option<Seq<char>> {
    let p = lower(path);
    if is_auth_path(p) {
        Some("must not modify host authentication file "@ + path)
    } else if names_regin(p) {
        Some("must not overwrite regin's own state/service ("@ + path + ")"@)
    } else {
        None
    }
}

/// The part of `t` after its last `/`.
pub open spec fn basename(t: Seq<char>) -> Seq<char> {
    t.subrange(last_index_of(t, '/') + 1, t.len() as int)
}

/// `a` with every trailing occurrence of `suf` removed.
pub open spec fn strip_suffix_all(a: Seq<char>, suf: Seq<char>) -> Seq<char>
    decreases a.len(),
{
    if suf.len() > 0 && ends_with(a, suf) {
        strip_suffix_all(a.subrange(0, a.len() - suf.len()), suf)
    } else {
        a
    }
}

/// Per-argument tests used by the shell red-lines.
#[derive(Clone, Copy)]
pub enum ArgTest {
    RootOrHome,
    OfDev,
    WipeAll,
    StopLike,
    RegindUnit,
    MentionsRegind,
    DisableWord,
    FirewallUnit,
    FlushFlag,
    FlushWord,
    RulesetWord,
    UidZeroJoined,
}

/// The unit name with every `.service` suffix stripped.
pub open spec fn unit_base(a: Seq<char>) -> Seq<char> {
    strip_suffix_all(a, ".service"@)
}

pub open spec fn arg_test(a: Seq<char>, t: ArgTest) -> bool {
    match t {
        ArgTest::RootOrHome => a == "/"@ || a == "/*"@ || a == "/."@ || a == "~"@ || a == "~/"@
            || a == "$home"@ || a == "${home}"@ || a == "$home/*"@,
        ArgTest::OfDev => starts_with(a, "of=/dev/"@),
        ArgTest::WipeAll => a == "-a"@ || a == "--all"@,
        ArgTest::StopLike => a == "stop"@ || a == "disable"@ || a == "mask"@,
        ArgTest::RegindUnit => unit_base(a) == "regind"@ || unit_base(a) == "regin"@,
        ArgTest::MentionsRegind => contains(a, "regind"@),
        ArgTest::DisableWord => a == "disable"@,
        ArgTest::FirewallUnit => unit_base(a) == "firewalld"@ || unit_base(a) == "ufw"@
            || unit_base(a) == "nftables"@ || unit_base(a) == "iptables"@ || unit_base(a)
            == "netfilter-persistent"@,
        ArgTest::FlushFlag => a == "-f"@ || a == "--flush"@,
        ArgTest::FlushWord => a == "flush"@,
        ArgTest::RulesetWord => a == "ruleset"@,
        ArgTest::UidZeroJoined => a == "--uid=0"@ || a == "-u0"@,
    }
}

/// Some argument passes test `t`.
pub open spec fn any_arg(args: Seq<Seq<char>>, t: ArgTest) -> bool {
    exists|i: int| 0 <= i < args.len() && #[trigger] arg_test(args[i], t)
}

/// The first argument naming the regin substrate (`backup == false`) or a
/// backup/snapshot (`backup == true`).
pub open spec fn first_hit(args: Seq<Seq<char>>, backup: bool) -> Option<Seq<char>>
    decreases args.len(),
{
    if args.len() == 0 {
        None
    } else if (if backup {
        hits_backup(args[0])
    } else {
        hits_regin(args[0])
    }) {
        Some(args[0])
    } else {
        first_hit(args.drop_first(), backup)
    }
}

/// A uid flag (`-u`, `--uid`, `-ou`, `-o`).
pub open spec fn is_uid_flag(a: Seq<char>) -> bool {
    a == "-u"@ || a == "--uid"@ || a == "-ou"@ || a == "-o"@
}

/// A flag followed by the value `0`.
pub open spec fn uid_pair(args: Seq<Seq<char>>, i: int) -> bool {
    0 <= i && i + 1 < args.len() && is_uid_flag(args[i]) && args[i + 1] == "0"@
}

/// The arguments create a uid-0 account.
pub open spec fn creates_uid_zero(args: Seq<Seq<char>>) -> bool {
    (exists|i: int| #[trigger] uid_pair(args, i)) || any_arg(args, ArgTest::UidZeroJoined)
}

pub open spec fn is_rm_like(c: Seq<char>) -> bool {
    c == "rm"@ || c == "shred"@ || c == "unlink"@
}

/// The red-line reason for one simple command given as lowercase tokens.
pub open spec fn check_simple(toks: Seq<Seq<char>>) -> Option<Seq<char>>
    recommends
        toks.len() > 0,
{
    let cmd = basename(toks[0]);
    let args = toks.drop_first();
    if is_rm_like(cmd) && any_arg(args, ArgTest::RootOrHome) {
        Some("must not recursively delete / or the home directory"@)
    } else if is_rm_like(cmd) && first_hit(args, false) is Some {
        Some("must not delete regin's own state/service ("@ + first_hit(args, false)->0 + ")"@)
    } else if is_rm_like(cmd) && first_hit(args, true) is Some {
        Some("must not delete a backup/snapshot ("@ + first_hit(args, true)->0 + ")"@)
    } else if cmd == "dd"@ && any_arg(args, ArgTest::OfDev) {
        Some("must not dd onto a raw block device"@)
    } else if starts_with(cmd, "mkfs"@) {
        Some("must not format a filesystem (mkfs)"@)
    } else if cmd == "wipefs"@ && any_arg(args, ArgTest::WipeAll) {
        Some("must not wipe filesystem signatures (wipefs -a)"@)
    } else if cmd == "sfdisk"@ || cmd == "sgdisk"@ {
        Some("must not repartition the disk ("@ + cmd + ")"@)
    } else if cmd == "systemctl"@ && any_arg(args, ArgTest::StopLike) && any_arg(
        args,
        ArgTest::RegindUnit,
    ) {
        Some("must not stop/disable regin's own service"@)
    } else if (cmd == "pkill"@ || cmd == "killall"@) && any_arg(args, ArgTest::MentionsRegind) {
        Some("must not kill the regin daemon"@)
    } else if cmd == "ufw"@ && any_arg(args, ArgTest::DisableWord) {
        Some("must not disable the firewall (ufw disable)"@)
    } else if cmd == "systemctl"@ && any_arg(args, ArgTest::StopLike) && any_arg(
        args,
        ArgTest::FirewallUnit,
    ) {
        Some("must not stop/disable the firewall service"@)
    } else if (cmd == "iptables"@ || cmd == "ip6tables"@) && any_arg(args, ArgTest::FlushFlag) {
        Some("must not flush the firewall ruleset"@)
    } else if cmd == "nft"@ && any_arg(args, ArgTest::FlushWord) && any_arg(
        args,
        ArgTest::RulesetWord,
    ) {
        Some("must not flush the nftables ruleset"@)
    } else if (cmd == "useradd"@ || cmd == "adduser"@) && creates_uid_zero(args) {
        Some("must not create a uid-0 (root-equivalent) account"@)
    } else {
        None
    }
}

/// Splitting a shell line on `;`, `&&`, `||`, `|` and newlines, from
/// position `i` with the current piece `cur` and the pieces `out` so far.
pub open spec fn split_simple_from(
    s: Seq<char>,
    i: int,
    cur: Seq<char>,
    out: Seq<Seq<char>>,
) -> Seq<Seq<char>>
    decreases s.len() - i,
{
    if i >= s.len() {
        out.push(cur)
    } else if i + 1 < s.len() && ((s[i] == '&' && s[i + 1] == '&') || (s[i] == '|' && s[i + 1]
        == '|')) {
        split_simple_from(s, i + 2, Seq::empty(), out.push(cur))
    } else if s[i] == ';' || s[i] == '|' || s[i] == '\n' {
        split_simple_from(s, i + 1, Seq::empty(), out.push(cur))
    } else {
        split_simple_from(s, i + 1, cur.push(s[i]), out)
    }
}

/// The trimmed, non-empty pieces among `parts`, in order.
pub open spec fn keep_nonempty_trimmed(parts: Seq<Seq<char>>) -> Seq<Seq<char>>
    decreases parts.len(),
{
    if parts.len() == 0 {
        Seq::empty()
    } else {
        let rest = keep_nonempty_trimmed(parts.drop_last());
        let t = trim(parts.last());
        if t.len() > 0 {
            rest.push(t)
        } else {
            rest
        }
    }
}

/// The simple commands of a shell line (naive quoting, by design).
pub open spec fn split_simple(cmd: Seq<char>) -> Seq<Seq<char>> {
    keep_nonempty_trimmed(split_simple_from(cmd, 0, Seq::empty(), Seq::empty()))
}

/// Lowercase whitespace-separated tokens of one simple command.
pub open spec fn simple_tokens(simple: Seq<char>) -> Seq<Seq<char>> {
    lower_each(split_ws(simple))
}

/// The first simple command (in order) that crosses a red-line.
pub open spec fn first_violation(simples: Seq<Seq<char>>) -> Option<Seq<char>>
    decreases simples.len(),
{
    if simples.len() == 0 {
        None
    } else {
        let toks = simple_tokens(simples[0]);
        if toks.len() > 0 && check_simple(toks) is Some {
            check_simple(toks)
        } else {
            first_violation(simples.drop_first())
        }
    }
}

/// The first whitespace-separated word after the last `>` of `lower`.
pub open spec fn redirect_target(lower: Seq<char>) -> Option<Seq<char>> {
    let k = last_index_of(lower, '>');
    if k < 0 {
        None
    } else {
        let words = split_ws(lower.subrange(k + 1, lower.len() as int));
        if words.len() > 0 {
            Some(words[0])
        } else {
            None
        }
    }
}

/// A redirection target that is a raw block device or an auth file.
pub open spec fn is_clobber_target(t: Seq<char>) -> bool {
    starts_with(t, "/dev/sd"@) || starts_with(t, "/dev/nvme"@) || starts_with(t, "/dev/vd"@)
        || is_auth_path(t)
}

/// The red-line reason for a shell command, if it crosses one.
pub open spec fn scan_command_spec(cmd: Seq<char>) -> Option<Seq<char>> {
    match redirect_target(lower(cmd)) {
        Some(t) if is_clobber_target(t) => Some(
            "redirection would clobber a device/auth target ("@ + t + ")"@,
        ),
        _ => first_violation(split_simple(cmd)),
    }
}

/// The red-line reason for calling `tool` with JSON arguments `args`.
pub open spec fn red_line_spec(tool: Seq<char>, args: Seq<char>) -> Option<Seq<char>> {
    if tool == "bash"@ {
        match json_string_member(args, "command"@) {
            Some(c) => scan_command_spec(c),
            None => None,
        }
    } else if tool == "write_file"@ || tool == "edit_file"@ {
        match json_string_member(args, "path"@) {
            Some(p) => write_path_violation(p),
            None => None,
        }
    } else {
        None
    }
}

/// The role named in a ceiling denial.
pub open spec fn role_of(persona: Option<&Persona>) -> Seq<char> {
    match persona {
        Some(p) => p.role@,
        None => "?"@,
    }
}

// ---------------------------------------------------------------------------
// Implementation
// ---------------------------------------------------------------------------

fn hits_regin_exec(a: &Vec<char>) -> (r: bool)
    ensures
        r == hits_regin(a@),
{
    let l = lower_chars(a);
    names_regin_exec(&l)
}

fn names_regin_exec(l: &Vec<char>) -> (r: bool)
    ensures
        r == names_regin(l@),
{
    contains_lit(l, ".local/share/regin") || contains_lit(l, "regin.db") || contains_lit(
        l,
        "kpi_events",
    ) || contains_lit(l, "/usr/share/regin") || contains_lit(l, "regind.service")
}

fn hits_backup_exec(a: &Vec<char>) -> (r: bool)
    ensures
        r == hits_backup(a@),
{
    let l = lower_chars(a);
    contains_lit(&l, "backup") || contains_lit(&l, "snapshot") || contains_lit(&l, ".snapshots")
        || contains_lit(&l, "/var/backups")
}

fn is_auth_path_exec(p: &Vec<char>) -> (r: bool)
    ensures
        r == is_auth_path(p@),
{
    starts_with_lit(p, "/etc/shadow") || starts_with_lit(p, "/etc/sudoers") || starts_with_lit(
        p,
        "/etc/gshadow",
    )
}

/// Red-line reason for writing `path` with the file tools.
pub fn check_write_path(path: &str) -> (r: Option<String>)
    ensures
        match write_path_violation(path@) {
            Some(m) => r is Some && r->0@ == m,
            None => r is None,
        },
{
    let orig = chars_of(path);
    let p = lower_chars(&orig);
    if is_auth_path_exec(&p) {
        let mut m = chars_of("must not modify host authentication file ");
        push_all(&mut m, &orig);
        return Some(string_of(&m));
    }
    if names_regin_exec(&p) {
        let m = wrap_lit("must not overwrite regin's own state/service (", &orig, ")");
        return Some(string_of(&m));
    }
    None
}

/// The part of a token after its last `/`.
pub fn basename_exec(t: &Vec<char>) -> (r: Vec<char>)
    ensures
        r@ == basename(t@),
{
    proof {
        lemma_last_index_of_bounds(t@, '/');
    }
    match last_index_of_exec(t, '/') {
        Some(k) => {
            assert(k < t.len());
            slice_chars(t, k + 1, t.len())
        },
        None => copy_chars(t),
    }
}

/// Strips every trailing `.service` from a unit name.
fn unit_base_exec(a: &Vec<char>) -> (r: Vec<char>)
    ensures
        r@ == unit_base(a@),
{
    let suf = chars_of(".service");
    let mut cur = copy_chars(a);
    while suf.len() > 0 && ends_with_exec(&cur, &suf)
        invariant
            suf@ == ".service"@,
            strip_suffix_all(a@, suf@) == strip_suffix_all(cur@, suf@),
        decreases cur.len(),
    {
        cur = slice_chars(&cur, 0, cur.len() - suf.len());
    }
    cur
}

fn arg_test_exec(a: &Vec<char>, t: ArgTest) -> (r: bool)
    ensures
        r == arg_test(a@, t),
{
    match t {
        ArgTest::RootOrHome => eq_lit(a, "/") || eq_lit(a, "/*") || eq_lit(a, "/.") || eq_lit(a, "~")
            || eq_lit(a, "~/") || eq_lit(a, "$home") || eq_lit(a, "${home}") || eq_lit(
            a,
            "$home/*",
        ),
        ArgTest::OfDev => starts_with_lit(a, "of=/dev/"),
        ArgTest::WipeAll => eq_lit(a, "-a") || eq_lit(a, "--all"),
        ArgTest::StopLike => eq_lit(a, "stop") || eq_lit(a, "disable") || eq_lit(a, "mask"),
        ArgTest::RegindUnit => {
            let b = unit_base_exec(a);
            eq_lit(&b, "regind") || eq_lit(&b, "regin")
        },
        ArgTest::MentionsRegind => contains_lit(a, "regind"),
        ArgTest::DisableWord => eq_lit(a, "disable"),
        ArgTest::FirewallUnit => {
            let b = unit_base_exec(a);
            eq_lit(&b, "firewalld") || eq_lit(&b, "ufw") || eq_lit(&b, "nftables") || eq_lit(
                &b,
                "iptables",
            ) || eq_lit(&b, "netfilter-persistent")
        },
        ArgTest::FlushFlag => eq_lit(a, "-f") || eq_lit(a, "--flush"),
        ArgTest::FlushWord => eq_lit(a, "flush"),
        ArgTest::RulesetWord => eq_lit(a, "ruleset"),
        ArgTest::UidZeroJoined => eq_lit(a, "--uid=0") || eq_lit(a, "-u0"),
    }
}

fn any_arg_exec(args: &Vec<Vec<char>>, t: ArgTest) -> (r: bool)
    ensures
        r == any_arg(views(args@), t),
{
    let mut i: usize = 0;
    while i < args.len()
        invariant
            i <= args.len(),
            forall|j: int| 0 <= j < i ==> !arg_test(#[trigger] views(args@)[j], t),
        decreases args.len() - i,
    {
        if arg_test_exec(&args[i], t) {
            assert(arg_test(views(args@)[i as int], t));
            return true;
        }
        i = i + 1;
    }
    false
}

fn first_hit_exec(args: &Vec<Vec<char>>, backup: bool) -> (r: Option<Vec<char>>)
    ensures
        match first_hit(views(args@), backup) {
            Some(h) => r is Some && r->0@ == h,
            None => r is None,
        },
{
    let ghost all = views(args@);
    let mut i: usize = 0;
    assert(all.subrange(0, all.len() as int) =~= all);
    while i < args.len()
        invariant
            i <= args.len(),
            all == views(args@),
            first_hit(all, backup) == first_hit(all.subrange(i as int, all.len() as int), backup),
        decreases args.len() - i,
    {
        let hit = if backup {
            hits_backup_exec(&args[i])
        } else {
            hits_regin_exec(&args[i])
        };
        let ghost rest = all.subrange(i as int, all.len() as int);
        assert(rest[0] == args@[i as int]@);
        if hit {
            return Some(copy_chars(&args[i]));
        }
        assert(rest.drop_first() =~= all.subrange(i + 1, all.len() as int));
        i = i + 1;
    }
    None
}

fn creates_uid_zero_exec(args: &Vec<Vec<char>>) -> (r: bool)
    ensures
        r == creates_uid_zero(views(args@)),
{
    let ghost a = views(args@);
    let mut i: usize = 0;
    while i < args.len() && i + 1 < args.len()
        invariant
            i <= args.len(),
            a == views(args@),
            forall|j: int| 0 <= j < i ==> !#[trigger] uid_pair(a, j),
        decreases args.len() - i,
    {
        let flag = eq_lit(&args[i], "-u") || eq_lit(&args[i], "--uid") || eq_lit(&args[i], "-ou")
            || eq_lit(&args[i], "-o");
        if flag && eq_lit(&args[i + 1], "0") {
            assert(uid_pair(a, i as int));
            return true;
        }
        i = i + 1;
    }
    assert forall|j: int| !#[trigger] uid_pair(a, j) by {
        if 0 <= j && j + 1 < a.len() {
            assert(j < i);
        }
    }
    any_arg_exec(args, ArgTest::UidZeroJoined)
}

fn is_rm_like_exec(c: &Vec<char>) -> (r: bool)
    ensures
        r == is_rm_like(c@),
{
    eq_lit(c, "rm") || eq_lit(c, "shred") || eq_lit(c, "unlink")
}

fn lit_string(s: &str) -> (r: Option<String>)
    ensures
        r is Some && r->0@ == s@,
{
    Some(string_of(&chars_of(s)))
}

/// The red-line reason for one simple command given as lowercase tokens.
pub fn check_simple_exec(toks: &Vec<Vec<char>>) -> (r: Option<String>)
    requires
        toks.len() > 0,
    ensures
        match check_simple(views(toks@)) {
            Some(m) => r is Some && r->0@ == m,
            None => r is None,
        },
{
    let cmd = basename_exec(&toks[0]);
    let args = tokens_from(toks, 1);
    proof {
        assert(views(toks@)[0] == toks@[0]@);
        assert(views(args@) =~= views(toks@).drop_first());
    }
    let rm_like = is_rm_like_exec(&cmd);
    if rm_like {
        if any_arg_exec(&args, ArgTest::RootOrHome) {
            return lit_string("must not recursively delete / or the home directory");
        }
        match first_hit_exec(&args, false) {
            Some(p) => {
                let m = wrap_lit("must not delete regin's own state/service (", &p, ")");
                return Some(string_of(&m));
            },
            None => {},
        }
        match first_hit_exec(&args, true) {
            Some(p) => {
                let m = wrap_lit("must not delete a backup/snapshot (", &p, ")");
                return Some(string_of(&m));
            },
            None => {},
        }
    }
    if eq_lit(&cmd, "dd") && any_arg_exec(&args, ArgTest::OfDev) {
        return lit_string("must not dd onto a raw block device");
    }
    if starts_with_lit(&cmd, "mkfs") {
        return lit_string("must not format a filesystem (mkfs)");
    }
    if eq_lit(&cmd, "wipefs") && any_arg_exec(&args, ArgTest::WipeAll) {
        return lit_string("must not wipe filesystem signatures (wipefs -a)");
    }
    if eq_lit(&cmd, "sfdisk") || eq_lit(&cmd, "sgdisk") {
        let m = wrap_lit("must not repartition the disk (", &cmd, ")");
        return Some(string_of(&m));
    }
    let systemctl = eq_lit(&cmd, "systemctl");
    if systemctl && any_arg_exec(&args, ArgTest::StopLike) && any_arg_exec(
        &args,
        ArgTest::RegindUnit,
    ) {
        return lit_string("must not stop/disable regin's own service");
    }
    if (eq_lit(&cmd, "pkill") || eq_lit(&cmd, "killall")) && any_arg_exec(
        &args,
        ArgTest::MentionsRegind,
    ) {
        return lit_string("must not kill the regin daemon");
    }
    if eq_lit(&cmd, "ufw") && any_arg_exec(&args, ArgTest::DisableWord) {
        return lit_string("must not disable the firewall (ufw disable)");
    }
    if systemctl && any_arg_exec(&args, ArgTest::StopLike) && any_arg_exec(
        &args,
        ArgTest::FirewallUnit,
    ) {
        return lit_string("must not stop/disable the firewall service");
    }
    if (eq_lit(&cmd, "iptables") || eq_lit(&cmd, "ip6tables")) && any_arg_exec(
        &args,
        ArgTest::FlushFlag,
    ) {
        return lit_string("must not flush the firewall ruleset");
    }
    if eq_lit(&cmd, "nft") && any_arg_exec(&args, ArgTest::FlushWord) && any_arg_exec(
        &args,
        ArgTest::RulesetWord,
    ) {
        return lit_string("must not flush the nftables ruleset");
    }
    if (eq_lit(&cmd, "useradd") || eq_lit(&cmd, "adduser")) && creates_uid_zero_exec(&args) {
        return lit_string("must not create a uid-0 (root-equivalent) account");
    }
    None
}


/// Splits a shell line into its raw pieces (before trimming).
fn split_raw_exec(s: &Vec<char>) -> (r: Vec<Vec<char>>)
    ensures
        views(r@) == split_simple_from(s@, 0, Seq::empty(), Seq::empty()),
{
    let mut out: Vec<Vec<char>> = Vec::new();
    let mut cur: Vec<char> = Vec::new();
    let mut i: usize = 0;
    assert(views(out@) =~= Seq::<Seq<char>>::empty());
    assert(cur@ =~= Seq::<char>::empty());
    while i < s.len()
        invariant
            i <= s.len(),
            split_simple_from(s@, 0, Seq::empty(), Seq::empty()) == split_simple_from(
                s@,
                i as int,
                cur@,
                views(out@),
            ),
        decreases s.len() - i,
    {
        let c = s[i];
        let pair = i + 1 < s.len() && ((c == '&' && s[i + 1] == '&') || (c == '|' && s[i + 1]
            == '|'));
        if pair || c == ';' || c == '|' || c == '\n' {
            let ghost o = views(out@);
            let t = cur;
            out.push(t);
            assert(views(out@) =~= o.push(t@));
            cur = Vec::new();
            assert(cur@ =~= Seq::<char>::empty());
            if pair {
                i = i + 2;
            } else {
                i = i + 1;
            }
        } else {
            cur.push(c);
            i = i + 1;
        }
    }
    let ghost o = views(out@);
    let t = cur;
    out.push(t);
    assert(views(out@) =~= o.push(t@));
    out
}

/// The trimmed, non-empty pieces of `parts`.
fn keep_nonempty_trimmed_exec(parts: &Vec<Vec<char>>) -> (r: Vec<Vec<char>>)
    ensures
        views(r@) == keep_nonempty_trimmed(views(parts@)),
{
    let ghost all = views(parts@);
    let mut r: Vec<Vec<char>> = Vec::new();
    let mut i: usize = 0;
    assert(all.subrange(0, 0) =~= Seq::<Seq<char>>::empty());
    assert(views(r@) =~= Seq::<Seq<char>>::empty());
    while i < parts.len()
        invariant
            i <= parts.len(),
            all == views(parts@),
            views(r@) == keep_nonempty_trimmed(all.subrange(0, i as int)),
        decreases parts.len() - i,
    {
        let t = crate::text::trim_chars(&parts[i]);
        proof {
            let pre = all.subrange(0, i + 1);
            assert(pre.drop_last() =~= all.subrange(0, i as int));
            assert(pre.last() == parts@[i as int]@);
        }
        if t.len() > 0 {
            let ghost o = views(r@);
            r.push(t);
            assert(views(r@) =~= o.push(t@));
        }
        i = i + 1;
    }
    assert(all.subrange(0, parts.len() as int) =~= all);
    r
}

/// The simple commands of a shell line.
pub fn split_simple_exec(cmd: &Vec<char>) -> (r: Vec<Vec<char>>)
    ensures
        views(r@) == split_simple(cmd@),
{
    let raw = split_raw_exec(cmd);
    keep_nonempty_trimmed_exec(&raw)
}

/// The first simple command that crosses a red-line.
fn first_violation_exec(simples: &Vec<Vec<char>>) -> (r: Option<String>)
    ensures
        match first_violation(views(simples@)) {
            Some(m) => r is Some && r->0@ == m,
            None => r is None,
        },
{
    let ghost all = views(simples@);
    let mut i: usize = 0;
    assert(all.subrange(0, all.len() as int) =~= all);
    while i < simples.len()
        invariant
            i <= simples.len(),
            all == views(simples@),
            first_violation(all) == first_violation(all.subrange(i as int, all.len() as int)),
        decreases simples.len() - i,
    {
        let words = crate::text::split_ws_exec(&simples[i]);
        let toks = crate::text::lower_each_exec(&words);
        let ghost rest = all.subrange(i as int, all.len() as int);
        assert(rest[0] == simples@[i as int]@);
        if toks.len() > 0 {
            let v = check_simple_exec(&toks);
            if v.is_some() {
                return v;
            }
        }
        assert(rest.drop_first() =~= all.subrange(i + 1, all.len() as int));
        i = i + 1;
    }
    None
}

/// The first word after the last `>` of an already-lowercased command.
fn redirect_target_exec(lower: &Vec<char>) -> (r: Option<Vec<char>>)
    ensures
        match redirect_target(lower@) {
            Some(t) => r is Some && r->0@ == t,
            None => r is None,
        },
{
    proof {
        lemma_last_index_of_bounds(lower@, '>');
    }
    match last_index_of_exec(lower, '>') {
        None => None,
        Some(k) => {
            assert(k < lower.len());
            let rest = slice_chars(lower, k + 1, lower.len());
            let words = crate::text::split_ws_exec(&rest);
            if words.len() > 0 {
                assert(views(words@)[0] == words@[0]@);
                Some(copy_chars(&words[0]))
            } else {
                None
            }
        },
    }
}

fn is_clobber_target_exec(t: &Vec<char>) -> (r: bool)
    ensures
        r == is_clobber_target(t@),
{
    starts_with_lit(t, "/dev/sd") || starts_with_lit(t, "/dev/nvme") || starts_with_lit(
        t,
        "/dev/vd",
    ) || is_auth_path_exec(t)
}

/// The red-line reason for a shell command, if it crosses one.
pub fn scan_command(cmd: &str) -> (r: Option<String>)
    ensures
        match scan_command_spec(cmd@) {
            Some(m) => r is Some && r->0@ == m,
            None => r is None,
        },
{
    let lc = lower_chars(&chars_of(cmd));
    match redirect_target_exec(&lc) {
        Some(t) => {
            if is_clobber_target_exec(&t) {
                let m = wrap_lit("redirection would clobber a device/auth target (", &t, ")");
                return Some(string_of(&m));
            }
        },
        None => {},
    }
    let c = chars_of(cmd);
    let simples = split_simple_exec(&c);
    first_violation_exec(&simples)
}

/// Returns a red-line reason if calling `tool` with the JSON arguments
/// `args` crosses a global prohibition.
pub fn red_line_violation(tool: &str, args: &str) -> (r: Option<String>)
    ensures
        match red_line_spec(tool@, args@) {
            Some(m) => r is Some && r->0@ == m,
            None => r is None,
        },
{
    let t = chars_of(tool);
    if eq_lit(&t, "bash") {
        match json_str_member(args, "command") {
            Some(c) => scan_command(c.as_str()),
            None => None,
        }
    } else if eq_lit(&t, "write_file") || eq_lit(&t, "edit_file") {
        match json_str_member(args, "path") {
            Some(p) => check_write_path(p.as_str()),
            None => None,
        }
    } else {
        None
    }
}

/// The guardrail's verdict as (deciding layer, reason) for a denial, `None`
/// for an allowed call: red-lines first, then the persona's ceiling.
pub open spec fn guard_spec(tool: Seq<char>, args: Seq<char>, persona: Option<&Persona>) -> Option<
    (DecisionLayer, Seq<char>),
> {
    match red_line_spec(tool, args) {
        Some(m) => Some((DecisionLayer::RedLine, m)),
        None => if allows_spec(persona, tool) {
            None
        } else {
            Some(
                (
                    DecisionLayer::Ceiling,
                    "tool '"@ + tool + "' is outside the '"@ + role_of(persona)
                        + "' role's capability ceiling"@,
                ),
            )
        },
    }
}

pub open spec fn decision_view(d: Decision) -> Option<(DecisionLayer, Seq<char>)> {
    match d {
        Decision::Allow => None,
        Decision::Deny { layer, reason } => Some((layer, reason@)),
    }
}

/// Checks a tool call against the global red-lines, then the persona's
/// capability ceiling. Red-lines take precedence.
pub fn check_tool_call(call: &ToolCall, persona: Option<&Persona>) -> (d: Decision)
    ensures
        decision_view(d) == guard_spec(call.function.name@, call.function.arguments@, persona),
        match red_line_spec(call.function.name@, call.function.arguments@) {
            Some(m) => d matches Decision::Deny { layer, reason } && layer == DecisionLayer::RedLine
                && reason@ == m,
            None => if allows_spec(persona, call.function.name@) {
                d is Allow
            } else {
                d matches Decision::Deny { layer, reason } && layer == DecisionLayer::Ceiling
                    && reason@ == "tool '"@ + call.function.name@ + "' is outside the '"@
                    + role_of(persona) + "' role's capability ceiling"@
            },
        },
{
    let name = call.function.name.as_str();
    match red_line_violation(name, call.function.arguments.as_str()) {
        Some(reason) => {
            return Decision::Deny { layer: DecisionLayer::RedLine, reason };
        },
        None => {},
    }
    if !allows(persona, name) {
        let role: &str = match persona {
            Some(p) => p.role.as_str(),
            None => "?",
        };
        let mut m = chars_of("tool '");
        push_lit(&mut m, name);
        push_lit(&mut m, "' is outside the '");
        push_lit(&mut m, role);
        push_lit(&mut m, "' role's capability ceiling");
        return Decision::Deny { layer: DecisionLayer::Ceiling, reason: string_of(&m) };
    }
    Decision::Allow
}


/// A simple command crosses a red-line on its own.
pub open spec fn crosses(simple: Seq<char>) -> bool {
    simple_tokens(simple).len() > 0 && check_simple(simple_tokens(simple)) is Some
}

proof fn lemma_first_violation_finds(simples: Seq<Seq<char>>, i: int)
    requires
        0 <= i < simples.len(),
        crosses(simples[i]),
    ensures
        first_violation(simples) is Some,
    decreases simples.len(),
{
    if !crosses(simples[0]) {
        assert(i > 0);
        assert(simples.drop_first()[i - 1] == simples[i]);
        lemma_first_violation_finds(simples.drop_first(), i - 1);
    }
}

/// A red-line hidden anywhere in a chain of commands (`;`, `&&`, `||`, `|`,
/// newlines) is caught: if any simple command of the line crosses one, the
/// whole line does.
pub proof fn law_red_line_in_chain_is_caught(cmd: Seq<char>, i: int)
    requires
        0 <= i < split_simple(cmd).len(),
        crosses(split_simple(cmd)[i]),
    ensures
        scan_command_spec(cmd) is Some,
{
    lemma_first_violation_finds(split_simple(cmd), i);
}

/// Red-lines beat the ceiling: a call that crosses a red-line is denied at
/// the red-line layer, with the same reason, whatever persona (scoped,
/// unscoped or none) is worn; no ceiling can grant it.
pub proof fn law_red_line_beats_any_ceiling(
    tool: Seq<char>,
    args: Seq<char>,
    p1: Option<&Persona>,
    p2: Option<&Persona>,
)
    requires
        red_line_spec(tool, args) is Some,
    ensures
        guard_spec(tool, args, p1) == Some((DecisionLayer::RedLine, red_line_spec(tool, args)->0)),
        guard_spec(tool, args, p1) == guard_spec(tool, args, p2),
{
}

/// A character of a plain command word: printable ASCII other than an
/// uppercase letter, a redirection `>` or a command separator (`;`, `|`,
/// `&`).
pub open spec fn plain_char(c: char) -> bool {
    let u = c as u32;
    &&& 33 <= u && u <= 126
    &&& !('A' <= c && c <= 'Z')
    &&& c != '>' && c != ';' && c != '|' && c != '&'
}

/// Every character of `w` is a plain word character.
pub open spec fn plain_word(w: Seq<char>) -> bool {
    forall|i: int| 0 <= i < w.len() ==> plain_char(#[trigger] w[i])
}

/// A command line of plain words: at least one, none empty.
pub open spec fn plain_words(ws: Seq<Seq<char>>) -> bool {
    &&& ws.len() > 0
    &&& forall|i: int| 0 <= i < ws.len() ==> (#[trigger] ws[i]).len() > 0 && plain_word(ws[i])
}

proof fn lemma_lower_plain(w: Seq<char>)
    requires
        plain_word(w),
    ensures
        lower(w) == w,
{
    assert(all_ascii(w));
    assert(w.map_values(|c: char| ascii_lower(c)) =~= w);
}

proof fn lemma_last_index_absent(s: Seq<char>, c: char)
    requires
        forall|i: int| 0 <= i < s.len() ==> s[i] != c,
    ensures
        last_index_of(s, c) == -1,
    decreases s.len(),
{
    if s.len() > 0 {
        assert(s.last() == s[s.len() - 1]);
        lemma_last_index_absent(s.drop_last(), c);
    }
}

proof fn lemma_split_ws_run(
    s: Seq<char>,
    i: int,
    k: int,
    cur: Seq<char>,
    out: Seq<Seq<char>>,
)
    requires
        0 <= i <= k <= s.len(),
        forall|m: int| i <= m < k ==> !is_ws(#[trigger] s[m]),
    ensures
        split_ws_from(s, i, cur, out) == split_ws_from(s, k, cur + s.subrange(i, k), out),
    decreases k - i,
{
    if i < k {
        lemma_split_ws_run(s, i + 1, k, cur.push(s[i]), out);
        assert(cur.push(s[i]) + s.subrange(i + 1, k) =~= cur + s.subrange(i, k));
    } else {
        assert(cur + s.subrange(i, k) =~= cur);
    }
}

/// Three plain words joined by single spaces split back into the words.
proof fn lemma_split_ws_three(a: Seq<char>, b: Seq<char>, c: Seq<char>)
    requires
        a.len() > 0,
        b.len() > 0,
        c.len() > 0,
        plain_word(a),
        plain_word(b),
        plain_word(c),
    ensures
        split_ws(a + " "@ + b + " "@ + c) == seq![a, b, c],
{
    reveal_strlit(" ");
    let s = a + " "@ + b + " "@ + c;
    let la = a.len() as int;
    let lb = b.len() as int;
    let e = Seq::<char>::empty();
    assert forall|m: int| 0 <= m < la implies !is_ws(#[trigger] s[m]) by {
        assert(s[m] == a[m]);
        assert(plain_char(a[m]));
    }
    lemma_split_ws_run(s, 0, la, e, Seq::empty());
    assert(e + s.subrange(0, la) =~= a);
    assert(s[la] == ' ');
    assert forall|m: int| la + 1 <= m < la + 1 + lb implies !is_ws(#[trigger] s[m]) by {
        assert(s[m] == b[m - la - 1]);
        assert(plain_char(b[m - la - 1]));
    }
    lemma_split_ws_run(s, la + 1, la + 1 + lb, e, seq![a]);
    assert(e + s.subrange(la + 1, la + 1 + lb) =~= b);
    assert(s[la + 1 + lb] == ' ');
    assert(seq![a].push(b) =~= seq![a, b]);
    assert forall|m: int| la + lb + 2 <= m < s.len() implies !is_ws(#[trigger] s[m]) by {
        assert(s[m] == c[m - la - lb - 2]);
        assert(plain_char(c[m - la - lb - 2]));
    }
    lemma_split_ws_run(s, la + lb + 2, s.len() as int, e, seq![a, b]);
    assert(e + s.subrange(la + lb + 2, s.len() as int) =~= c);
    assert(seq![a, b].push(c) =~= seq![a, b, c]);
}

proof fn lemma_split_simple_plain(s: Seq<char>, i: int, cur: Seq<char>, out: Seq<Seq<char>>)
    requires
        0 <= i <= s.len(),
        forall|k: int| i <= k < s.len() ==> #[trigger] s[k] != ';' && s[k] != '|' && s[k] != '&' && s[k] != '\n',
    ensures
        split_simple_from(s, i, cur, out) == out.push(cur + s.subrange(i, s.len() as int)),
    decreases s.len() - i,
{
    if i < s.len() {
        lemma_split_simple_plain(s, i + 1, cur.push(s[i]), out);
        assert(cur.push(s[i]) + s.subrange(i + 1, s.len() as int) =~= cur + s.subrange(i, s.len() as int));
    } else {
        assert(cur + s.subrange(i, s.len() as int) =~= cur);
    }
}

/// The words of `join(ws, " ")` split back out, for plain words: the split
/// of the line followed by `rest` (empty or starting with a space) reaches
/// the end of the last word holding it as the current token.
proof fn lemma_split_joined(ws: Seq<Seq<char>>, rest: Seq<char>)
    requires
        plain_words(ws),
        rest.len() > 0 ==> rest[0] == ' ',
    ensures
        split_ws_from(join(ws, " "@) + rest, 0, Seq::empty(), Seq::empty()) == split_ws_from(
            join(ws, " "@) + rest,
            join(ws, " "@).len() as int,
            ws.last(),
            ws.drop_last(),
        ),
    decreases ws.len(),
{
    reveal_strlit(" ");
    let j = join(ws, " "@);
    let s = j + rest;
    if ws.len() == 1 {
        assert(j == ws[0]);
        assert forall|m: int| 0 <= m < j.len() implies !is_ws(#[trigger] s[m]) by {
            assert(s[m] == ws[0][m]);
            assert(plain_char(ws[0][m]));
        }
        lemma_split_ws_run(s, 0, j.len() as int, Seq::empty(), Seq::empty());
        assert(Seq::<char>::empty() + s.subrange(0, j.len() as int) =~= ws[0]);
        assert(ws.drop_last() =~= Seq::<Seq<char>>::empty());
    } else {
        let p = ws.drop_last();
        let w = ws.last();
        let jp = join(p, " "@);
        assert(plain_words(p)) by {
            assert forall|i: int| 0 <= i < p.len() implies (#[trigger] p[i]).len() > 0 && plain_word(p[i]) by {
                assert(p[i] == ws[i]);
            }
        }
        assert(ws[ws.len() - 1] == w);
        assert(j == jp + " "@ + w);
        let rest2 = " "@ + w + rest;
        assert(s =~= jp + rest2);
        lemma_split_joined(p, rest2);
        let k = jp.len() as int;
        assert(s[k] == ' ');
        assert(p.drop_last().push(p.last()) =~= p);
        assert forall|m: int| k + 1 <= m < k + 1 + w.len() implies !is_ws(#[trigger] s[m]) by {
            assert(s[m] == w[m - k - 1]);
            assert(plain_char(w[m - k - 1]));
        }
        lemma_split_ws_run(s, k + 1, k + 1 + w.len(), Seq::empty(), p);
        assert(Seq::<char>::empty() + s.subrange(k + 1, k + 1 + w.len()) =~= w);
    }
}

/// Every character of a line of plain words is a plain character or a
/// space; it starts with its first word's first character and ends with
/// its last word's last character.
proof fn lemma_joined_chars(ws: Seq<Seq<char>>)
    requires
        plain_words(ws),
    ensures
        join(ws, " "@).len() > 0,
        forall|k: int| 0 <= k < join(ws, " "@).len() ==> plain_char(#[trigger] join(ws, " "@)[k])
            || join(ws, " "@)[k] == ' ',
        join(ws, " "@)[0] == ws[0][0],
        join(ws, " "@).last() == ws.last().last(),
    decreases ws.len(),
{
    reveal_strlit(" ");
    let j = join(ws, " "@);
    if ws.len() == 1 {
        assert(plain_word(ws[0]));
    } else {
        let p = ws.drop_last();
        let w = ws.last();
        assert(plain_words(p)) by {
            assert forall|i: int| 0 <= i < p.len() implies (#[trigger] p[i]).len() > 0 && plain_word(p[i]) by {
                assert(p[i] == ws[i]);
            }
        }
        lemma_joined_chars(p);
        let jp = join(p, " "@);
        assert(ws[ws.len() - 1] == w);
        assert(plain_word(w));
        assert(j == jp + " "@ + w);
        assert forall|k: int| 0 <= k < j.len() implies plain_char(#[trigger] j[k]) || j[k] == ' ' by {
            if k < jp.len() {
                assert(j[k] == jp[k]);
            } else if k == jp.len() {
            } else {
                assert(j[k] == w[k - jp.len() - 1]);
            }
        }
        assert(p[0] == ws[0]);
        assert(j[0] == jp[0]);
        assert(j.last() == w[w.len() - 1]);
    }
}

/// A shell command made of plain words separated by single spaces is one
/// simple command, checked as its words: its red-line reason is the one
/// the words give.
pub proof fn lemma_plain_line(ws: Seq<Seq<char>>)
    requires
        plain_words(ws),
    ensures
        scan_command_spec(join(ws, " "@)) == check_simple(ws),
{
    reveal_strlit(" ");
    let cmd = join(ws, " "@);
    lemma_joined_chars(ws);
    // no redirection
    assert(all_ascii(cmd));
    assert(lower(cmd) =~= cmd);
    lemma_last_index_absent(cmd, '>');
    assert(redirect_target(lower(cmd)) is None);
    // one simple command
    lemma_split_simple_plain(cmd, 0, Seq::empty(), Seq::empty());
    assert(Seq::<char>::empty() + cmd.subrange(0, cmd.len() as int) =~= cmd);
    let parts = seq![cmd];
    assert(split_simple_from(cmd, 0, Seq::empty(), Seq::empty()) =~= parts);
    assert(plain_word(ws[0]));
    assert(!is_ws(cmd[0]));
    assert(trim_start(cmd) == cmd);
    assert(plain_word(ws.last()));
    assert(ws.last() == ws[ws.len() - 1]);
    assert(!is_ws(cmd.last()));
    assert(trim_end(cmd) == cmd);
    assert(trim(cmd) == cmd);
    assert(parts.drop_last() =~= Seq::<Seq<char>>::empty());
    assert(keep_nonempty_trimmed(Seq::<Seq<char>>::empty()) == Seq::<Seq<char>>::empty());
    assert(keep_nonempty_trimmed(parts) =~= Seq::<Seq<char>>::empty().push(cmd));
    assert(split_simple(cmd) =~= seq![cmd]);
    // its tokens are the words
    lemma_split_joined(ws, Seq::empty());
    assert(cmd + Seq::<char>::empty() =~= cmd);
    assert(ws.drop_last().push(ws.last()) =~= ws);
    assert(split_ws(cmd) == ws);
    assert forall|i: int| 0 <= i < ws.len() implies lower(#[trigger] ws[i]) == ws[i] by {
        lemma_lower_plain(ws[i]);
    }
    assert(simple_tokens(cmd) =~= ws);
    assert(seq![cmd].drop_first() =~= Seq::<Seq<char>>::empty());
    assert(seq![cmd][0] == cmd);
    assert(first_violation(Seq::<Seq<char>>::empty()) is None);
    assert(first_violation(seq![cmd]) == check_simple(ws));
    assert(first_violation(split_simple(cmd)) == check_simple(ws));
}

/// The tokens after the command word of a plain command line.
pub open spec fn plain_args(ws: Seq<Seq<char>>) -> Seq<Seq<char>> {
    ws.drop_first()
}

/// A bash call's command, when its JSON arguments carry one.
pub open spec fn bash_command_is(args: Seq<char>, ws: Seq<Seq<char>>) -> bool {
    json_string_member(args, "command"@) == Some(join(ws, " "@))
}

/// Any `bash` call whose command is `systemctl` with a stop/disable/mask
/// word and a firewall unit (`firewalld`, `ufw`, `nftables`, `iptables`,
/// `netfilter-persistent`, with or without `.service`) among its words is
/// denied at the red-line layer.
pub proof fn law_any_firewall_stop_is_a_red_line(args: Seq<char>, ws: Seq<Seq<char>>, i: int, k: int)
    requires
        plain_words(ws),
        bash_command_is(args, ws),
        ws[0] == "systemctl"@,
        1 <= i < ws.len(),
        ws[i] == "stop"@ || ws[i] == "disable"@ || ws[i] == "mask"@,
        1 <= k < ws.len(),
        ({
            let u = ws[k];
            let b = if ends_with(u, ".service"@) {
                u.subrange(0, u.len() - 8)
            } else {
                u
            };
            b == "firewalld"@ || b == "ufw"@ || b == "nftables"@ || b == "iptables"@ || b
                == "netfilter-persistent"@
        }),
    ensures
        red_line_spec("bash"@, args) is Some,
{
    lemma_plain_line(ws);
    reveal_strlit("systemctl");
    reveal_strlit(".service");
    reveal_strlit("firewalld");
    reveal_strlit("ufw");
    reveal_strlit("nftables");
    reveal_strlit("iptables");
    reveal_strlit("netfilter-persistent");
    lemma_last_index_absent(ws[0], '/');
    assert(basename(ws[0]) =~= ws[0]);
    let a = ws.drop_first();
    assert(a[i - 1] == ws[i]);
    assert(a[k - 1] == ws[k]);
    assert(arg_test(a[i - 1], ArgTest::StopLike));
    let u = ws[k];
    reveal_with_fuel(strip_suffix_all, 3);
    if ends_with(u, ".service"@) {
        let b = u.subrange(0, u.len() - 8);
        assert(!ends_with(b, ".service"@)) by {
            if ends_with(b, ".service"@) {
                assert(b.subrange(b.len() - 8, b.len() as int)[0] == '.');
                assert(b[b.len() - 8] == '.');
            }
        }
        assert(unit_base(u) == b);
    } else {
        assert(unit_base(u) == u);
    }
    assert(arg_test(a[k - 1], ArgTest::FirewallUnit));
    assert(any_arg(a, ArgTest::StopLike));
    assert(any_arg(a, ArgTest::FirewallUnit));
}

proof fn lemma_command_word(ws: Seq<Seq<char>>)
    requires
        ws.len() > 0,
        forall|j: int| 0 <= j < ws[0].len() ==> ws[0][j] != '/',
    ensures
        basename(ws[0]) == ws[0],
{
    lemma_last_index_absent(ws[0], '/');
    assert(ws[0].subrange(0, ws[0].len() as int) =~= ws[0]);
}

proof fn lemma_first_hit_some(args: Seq<Seq<char>>, backup: bool, i: int)
    requires
        0 <= i < args.len(),
        if backup {
            hits_backup(args[i])
        } else {
            hits_regin(args[i])
        },
    ensures
        first_hit(args, backup) is Some,
    decreases i,
{
    if i > 0 {
        assert(args.drop_first()[i - 1] == args[i]);
        lemma_first_hit_some(args.drop_first(), backup, i - 1);
    }
}

/// Deleting `/` or the home directory (`/`, `/*`, `/.`, `~`, `~/`,
/// `$home`, `${home}`, `$home/*`, any case) with `rm`, `shred` or `unlink`
/// is denied with that reason, whatever other arguments stand beside it.
pub proof fn law_deleting_root_or_home_is_a_red_line(args: Seq<char>, ws: Seq<Seq<char>>, i: int)
    requires
        plain_words(ws),
        bash_command_is(args, ws),
        ws[0] == "rm"@ || ws[0] == "shred"@ || ws[0] == "unlink"@,
        1 <= i < ws.len(),
        ws[i] == "/"@ || ws[i] == "/*"@ || ws[i] == "/."@ || ws[i] == "~"@ || ws[i] == "~/"@ || ws[i]
            == "$home"@ || ws[i] == "${home}"@ || ws[i] == "$home/*"@,
    ensures
        red_line_spec("bash"@, args) == Some("must not recursively delete / or the home directory"@),
{
    lemma_plain_line(ws);
    reveal_strlit("rm");
    reveal_strlit("shred");
    reveal_strlit("unlink");
    lemma_command_word(ws);
    let a = ws.drop_first();
    assert(a[i - 1] == ws[i]);
    assert(arg_test(a[i - 1], ArgTest::RootOrHome));
    assert(any_arg(a, ArgTest::RootOrHome));
}

/// Deleting regin's own state or service (an argument naming
/// `.local/share/regin`, `regin.db`, `kpi_events`, `/usr/share/regin` or
/// `regind.service`) with `rm`, `shred` or `unlink` is denied.
pub proof fn law_deleting_regin_state_is_a_red_line(args: Seq<char>, ws: Seq<Seq<char>>, i: int)
    requires
        plain_words(ws),
        bash_command_is(args, ws),
        ws[0] == "rm"@ || ws[0] == "shred"@ || ws[0] == "unlink"@,
        1 <= i < ws.len(),
        contains(ws[i], ".local/share/regin"@) || contains(ws[i], "regin.db"@) || contains(
            ws[i],
            "kpi_events"@,
        ) || contains(ws[i], "/usr/share/regin"@) || contains(ws[i], "regind.service"@),
    ensures
        red_line_spec("bash"@, args) is Some,
{
    lemma_plain_line(ws);
    reveal_strlit("rm");
    reveal_strlit("shred");
    reveal_strlit("unlink");
    lemma_command_word(ws);
    let a = ws.drop_first();
    assert(a[i - 1] == ws[i]);
    lemma_lower_plain(ws[i]);
    lemma_first_hit_some(a, false, i - 1);
}

/// Deleting a backup or snapshot (an argument naming `backup`,
/// `snapshot`, `.snapshots` or `/var/backups`) with `rm`, `shred` or
/// `unlink` is denied.
pub proof fn law_deleting_backups_is_a_red_line(args: Seq<char>, ws: Seq<Seq<char>>, i: int)
    requires
        plain_words(ws),
        bash_command_is(args, ws),
        ws[0] == "rm"@ || ws[0] == "shred"@ || ws[0] == "unlink"@,
        1 <= i < ws.len(),
        contains(ws[i], "backup"@) || contains(ws[i], "snapshot"@),
    ensures
        red_line_spec("bash"@, args) is Some,
{
    lemma_plain_line(ws);
    reveal_strlit("rm");
    reveal_strlit("shred");
    reveal_strlit("unlink");
    lemma_command_word(ws);
    let a = ws.drop_first();
    assert(a[i - 1] == ws[i]);
    lemma_lower_plain(ws[i]);
    if first_hit(a, false) is None {
        lemma_first_hit_some(a, true, i - 1);
    }
}

/// `dd` onto a raw block device (an `of=/dev/...` argument) is denied.
pub proof fn law_dd_onto_a_device_is_a_red_line(args: Seq<char>, ws: Seq<Seq<char>>, i: int)
    requires
        plain_words(ws),
        bash_command_is(args, ws),
        ws[0] == "dd"@,
        1 <= i < ws.len(),
        starts_with(ws[i], "of=/dev/"@),
    ensures
        red_line_spec("bash"@, args) is Some,
{
    lemma_plain_line(ws);
    reveal_strlit("dd");
    lemma_command_word(ws);
    let a = ws.drop_first();
    assert(a[i - 1] == ws[i]);
    assert(arg_test(a[i - 1], ArgTest::OfDev));
}

/// Formatting a filesystem (any command word starting `mkfs`) is denied.
pub proof fn law_mkfs_is_a_red_line(args: Seq<char>, ws: Seq<Seq<char>>)
    requires
        plain_words(ws),
        bash_command_is(args, ws),
        starts_with(ws[0], "mkfs"@),
        forall|j: int| 0 <= j < ws[0].len() ==> ws[0][j] != '/',
    ensures
        red_line_spec("bash"@, args) is Some,
{
    lemma_plain_line(ws);
    lemma_command_word(ws);
}

/// Wiping filesystem signatures (`wipefs -a` / `--all`) is denied.
pub proof fn law_wipefs_all_is_a_red_line(args: Seq<char>, ws: Seq<Seq<char>>, i: int)
    requires
        plain_words(ws),
        bash_command_is(args, ws),
        ws[0] == "wipefs"@,
        1 <= i < ws.len(),
        ws[i] == "-a"@ || ws[i] == "--all"@,
    ensures
        red_line_spec("bash"@, args) is Some,
{
    lemma_plain_line(ws);
    reveal_strlit("wipefs");
    lemma_command_word(ws);
    let a = ws.drop_first();
    assert(a[i - 1] == ws[i]);
    assert(arg_test(a[i - 1], ArgTest::WipeAll));
}

/// Repartitioning (`sfdisk`, `sgdisk`) is denied, whatever the arguments.
pub proof fn law_repartitioning_is_a_red_line(args: Seq<char>, ws: Seq<Seq<char>>)
    requires
        plain_words(ws),
        bash_command_is(args, ws),
        ws[0] == "sfdisk"@ || ws[0] == "sgdisk"@,
    ensures
        red_line_spec("bash"@, args) is Some,
{
    lemma_plain_line(ws);
    reveal_strlit("sfdisk");
    reveal_strlit("sgdisk");
    lemma_command_word(ws);
}

/// Stopping, disabling or masking regin's own service (`regind` or
/// `regin`, with or without `.service`) is denied.
pub proof fn law_stopping_regin_is_a_red_line(args: Seq<char>, ws: Seq<Seq<char>>, i: int, k: int)
    requires
        plain_words(ws),
        bash_command_is(args, ws),
        ws[0] == "systemctl"@,
        1 <= i < ws.len(),
        ws[i] == "stop"@ || ws[i] == "disable"@ || ws[i] == "mask"@,
        1 <= k < ws.len(),
        ws[k] == "regind"@ || ws[k] == "regin"@ || ws[k] == "regind.service"@ || ws[k]
            == "regin.service"@,
    ensures
        red_line_spec("bash"@, args) is Some,
{
    lemma_plain_line(ws);
    reveal_strlit("systemctl");
    reveal_strlit(".service");
    reveal_strlit("regind");
    reveal_strlit("regin");
    reveal_strlit("regind.service");
    reveal_strlit("regin.service");
    lemma_command_word(ws);
    let a = ws.drop_first();
    assert(a[i - 1] == ws[i]);
    assert(a[k - 1] == ws[k]);
    assert(arg_test(a[i - 1], ArgTest::StopLike));
    reveal_with_fuel(strip_suffix_all, 3);
    let u = ws[k];
    if u == "regind.service"@ || u == "regin.service"@ {
        assert(ends_with(u, ".service"@)) by {
            assert(u.subrange(u.len() - 8, u.len() as int) =~= ".service"@);
        }
        let b = u.subrange(0, u.len() - 8);
        assert(b =~= "regind"@ || b =~= "regin"@);
        assert(!ends_with(b, ".service"@));
    }
    assert(arg_test(a[k - 1], ArgTest::RegindUnit));
}

/// Killing the regin daemon (`pkill` / `killall` with an argument naming
/// `regind`) is denied.
pub proof fn law_killing_regind_is_a_red_line(args: Seq<char>, ws: Seq<Seq<char>>, i: int)
    requires
        plain_words(ws),
        bash_command_is(args, ws),
        ws[0] == "pkill"@ || ws[0] == "killall"@,
        1 <= i < ws.len(),
        contains(ws[i], "regind"@),
    ensures
        red_line_spec("bash"@, args) is Some,
{
    lemma_plain_line(ws);
    reveal_strlit("pkill");
    reveal_strlit("killall");
    lemma_command_word(ws);
    let a = ws.drop_first();
    assert(a[i - 1] == ws[i]);
    assert(arg_test(a[i - 1], ArgTest::MentionsRegind));
}

/// Disabling the firewall with `ufw disable` is denied.
pub proof fn law_ufw_disable_is_a_red_line(args: Seq<char>, ws: Seq<Seq<char>>, i: int)
    requires
        plain_words(ws),
        bash_command_is(args, ws),
        ws[0] == "ufw"@,
        1 <= i < ws.len(),
        ws[i] == "disable"@,
    ensures
        red_line_spec("bash"@, args) is Some,
{
    lemma_plain_line(ws);
    reveal_strlit("ufw");
    lemma_command_word(ws);
    let a = ws.drop_first();
    assert(a[i - 1] == ws[i]);
    assert(arg_test(a[i - 1], ArgTest::DisableWord));
}

/// Flushing the firewall (`iptables` / `ip6tables` with `-f` (written
/// `-F`) or `--flush`, or `nft flush ruleset`) is denied.
pub proof fn law_flushing_the_firewall_is_a_red_line(args: Seq<char>, ws: Seq<Seq<char>>, i: int, k: int)
    requires
        plain_words(ws),
        bash_command_is(args, ws),
        1 <= i < ws.len(),
        1 <= k < ws.len(),
        ((ws[0] == "iptables"@ || ws[0] == "ip6tables"@) && (ws[i] == "-f"@ || ws[i] == "--flush"@))
            || (ws[0] == "nft"@ && ws[i] == "flush"@ && ws[k] == "ruleset"@),
    ensures
        red_line_spec("bash"@, args) is Some,
{
    lemma_plain_line(ws);
    reveal_strlit("iptables");
    reveal_strlit("ip6tables");
    reveal_strlit("nft");
    lemma_command_word(ws);
    let a = ws.drop_first();
    assert(a[i - 1] == ws[i]);
    assert(a[k - 1] == ws[k]);
    if ws[0] == "nft"@ {
        assert(arg_test(a[i - 1], ArgTest::FlushWord));
        assert(arg_test(a[k - 1], ArgTest::RulesetWord));
    } else {
        assert(arg_test(a[i - 1], ArgTest::FlushFlag));
    }
}

/// Creating a uid-0 account (`useradd` / `adduser` with `-u`, `--uid`,
/// `-ou` or `-o` followed by `0`, or `--uid=0` / `-u0`) is denied.
pub proof fn law_uid_zero_account_is_a_red_line(args: Seq<char>, ws: Seq<Seq<char>>, i: int)
    requires
        plain_words(ws),
        bash_command_is(args, ws),
        ws[0] == "useradd"@ || ws[0] == "adduser"@,
        1 <= i < ws.len(),
        ((ws[i] == "-u"@ || ws[i] == "--uid"@ || ws[i] == "-ou"@ || ws[i] == "-o"@) && i + 1 < ws.len()
            && ws[i + 1] == "0"@) || ws[i] == "--uid=0"@ || ws[i] == "-u0"@,
    ensures
        red_line_spec("bash"@, args) is Some,
{
    lemma_plain_line(ws);
    reveal_strlit("useradd");
    reveal_strlit("adduser");
    lemma_command_word(ws);
    let a = ws.drop_first();
    assert(a[i - 1] == ws[i]);
    if ws[i] == "--uid=0"@ || ws[i] == "-u0"@ {
        assert(arg_test(a[i - 1], ArgTest::UidZeroJoined));
    } else {
        assert(a[i] == ws[i + 1]);
        assert(uid_pair(a, i - 1));
    }
}

/// Writing or editing a host authentication file (a path starting
/// `/etc/shadow`, `/etc/sudoers` or `/etc/gshadow`, in any ASCII case) is
/// denied, naming the path as given.
pub proof fn law_writing_auth_files_is_a_red_line(args: Seq<char>, tool: Seq<char>, path: Seq<char>)
    requires
        tool == "write_file"@ || tool == "edit_file"@,
        json_string_member(args, "path"@) == Some(path),
        all_ascii(path),
        ({
            let lp = path.map_values(|c: char| ascii_lower(c));
            starts_with(lp, "/etc/shadow"@) || starts_with(lp, "/etc/sudoers"@) || starts_with(
                lp,
                "/etc/gshadow"@,
            )
        }),
    ensures
        red_line_spec(tool, args) == Some("must not modify host authentication file "@ + path),
{
    reveal_strlit("write_file");
    reveal_strlit("edit_file");
    reveal_strlit("bash");
    assert(lower(path) =~= path.map_values(|c: char| ascii_lower(c)));
    assert("bash"@.len() == 4);
    assert(tool.len() >= 9);
    assert(tool != "bash"@);
    assert(is_auth_path(lower(path)));
    assert(write_path_violation(path) == Some("must not modify host authentication file "@ + path));
}

/// Writing or editing regin's own state or service (a path naming
/// `.local/share/regin`, `regin.db`, `kpi_events`, `/usr/share/regin` or
/// `regind.service`, in any ASCII case) is denied.
pub proof fn law_writing_regin_state_is_a_red_line(args: Seq<char>, tool: Seq<char>, path: Seq<char>)
    requires
        tool == "write_file"@ || tool == "edit_file"@,
        json_string_member(args, "path"@) == Some(path),
        all_ascii(path),
        ({
            let lp = path.map_values(|c: char| ascii_lower(c));
            contains(lp, ".local/share/regin"@) || contains(lp, "regin.db"@) || contains(lp, "kpi_events"@)
                || contains(lp, "/usr/share/regin"@) || contains(lp, "regind.service"@)
        }),
    ensures
        red_line_spec(tool, args) is Some,
{
    reveal_strlit("write_file");
    reveal_strlit("edit_file");
    reveal_strlit("bash");
    assert(lower(path) =~= path.map_values(|c: char| ascii_lower(c)));
    assert("bash"@.len() == 4);
    assert(tool.len() >= 9);
    assert(tool != "bash"@);
    assert(names_regin(lower(path)));
    assert(write_path_violation(path) is Some);
}

proof fn lemma_last_index_after(a: Seq<char>, b: Seq<char>, c: char)
    requires
        forall|i: int| 0 <= i < b.len() ==> b[i] != c,
    ensures
        last_index_of(a + b, c) == last_index_of(a, c),
    decreases b.len(),
{
    if b.len() > 0 {
        assert((a + b).drop_last() =~= a + b.drop_last());
        assert((a + b).last() == b[b.len() - 1]);
        lemma_last_index_after(a, b.drop_last(), c);
    } else {
        assert(a + b =~= a);
    }
}

/// Redirecting output onto a raw block device (`/dev/sd*`, `/dev/nvme*`,
/// `/dev/vd*`) or a host authentication file is denied, naming the target:
/// for any ASCII command ending `> <target>`, whatever precedes it.
pub proof fn law_clobbering_redirection_is_a_red_line(args: Seq<char>, head: Seq<char>, target: Seq<char>)
    requires
        json_string_member(args, "command"@) == Some(head + "> "@ + target),
        all_ascii(head),
        target.len() > 0,
        plain_word(target),
        starts_with(target, "/dev/sd"@) || starts_with(target, "/dev/nvme"@) || starts_with(
            target,
            "/dev/vd"@,
        ) || starts_with(target, "/etc/shadow"@) || starts_with(target, "/etc/sudoers"@)
            || starts_with(target, "/etc/gshadow"@),
    ensures
        red_line_spec("bash"@, args) == Some(
            "redirection would clobber a device/auth target ("@ + target + ")"@,
        ),
{
    reveal_strlit("> ");
    reveal_strlit(" ");
    let cmd = head + "> "@ + target;
    assert(plain_word(target));
    assert(all_ascii(cmd)) by {
        assert forall|k: int| 0 <= k < cmd.len() implies (#[trigger] cmd[k] as u32) < 128 by {
            if k < head.len() {
                assert(cmd[k] == head[k]);
            } else if k >= head.len() + 2 {
                assert(cmd[k] == target[k - head.len() - 2]);
                assert(plain_char(target[k - head.len() - 2]));
            }
        }
    }
    let lh = head.map_values(|c: char| ascii_lower(c));
    lemma_lower_plain(target);
    assert(target.map_values(|c: char| ascii_lower(c)) =~= target);
    reveal_strlit(">");
    let l = lower(cmd);
    assert(l =~= cmd.map_values(|c: char| ascii_lower(c)));
    assert forall|m: int| 0 <= m < l.len() implies #[trigger] l[m] == ((lh + ">"@) + (" "@ + target))[m] by {
        if m < head.len() {
            assert(cmd[m] == head[m]);
        } else if m == head.len() {
            assert(cmd[m] == '>');
        } else if m == head.len() + 1 {
            assert(cmd[m] == ' ');
        } else {
            assert(cmd[m] == target[m - head.len() - 2]);
            assert(plain_char(target[m - head.len() - 2]));
        }
    }
    assert(l =~= (lh + ">"@) + (" "@ + target));
    assert forall|k: int| 0 <= k < (" "@ + target).len() implies (" "@ + target)[k] != '>' by {
        if k > 0 {
            assert((" "@ + target)[k] == target[k - 1]);
            assert(plain_char(target[k - 1]));
        }
    }
    lemma_last_index_after(lh + ">"@, " "@ + target, '>');
    assert((lh + ">"@).last() == '>');
    let k = lh.len() as int;
    assert(last_index_of(l, '>') == k);
    let after = l.subrange(k + 1, l.len() as int);
    assert(after =~= " "@ + target);
    // the words after the redirection
    assert(split_ws_from(after, 0, Seq::empty(), Seq::empty()) == split_ws_from(
        after,
        1,
        Seq::empty(),
        Seq::empty(),
    ));
    assert forall|m: int| 1 <= m < after.len() implies !is_ws(#[trigger] after[m]) by {
        assert(after[m] == target[m - 1]);
        assert(plain_char(target[m - 1]));
    }
    lemma_split_ws_run(after, 1, after.len() as int, Seq::empty(), Seq::empty());
    assert(Seq::<char>::empty() + after.subrange(1, after.len() as int) =~= target);
    assert(split_ws(after) =~= seq![target]);
    assert(redirect_target(l) == Some(target));
    assert(is_clobber_target(target));
}

/// Stopping, disabling or masking a firewall service crosses a red-line:
/// whatever else the JSON arguments hold, a `bash` call whose command is
/// `systemctl <stop|disable|mask> <unit>`, for any of the firewall units
/// `firewalld`, `ufw`, `nftables`, `iptables`, `netfilter-persistent`
/// (with or without `.service`), is denied with the firewall reason.
pub proof fn law_stopping_the_firewall_is_a_red_line(
    args: Seq<char>,
    verb: Seq<char>,
    unit: Seq<char>,
    suffix: Seq<char>,
)
    requires
        verb == "stop"@ || verb == "disable"@ || verb == "mask"@,
        unit == "firewalld"@ || unit == "ufw"@ || unit == "nftables"@ || unit == "iptables"@ || unit
            == "netfilter-persistent"@,
        suffix.len() == 0 || suffix == ".service"@,
        json_string_member(args, "command"@) == Some("systemctl "@ + verb + " "@ + unit + suffix),
    ensures
        red_line_spec("bash"@, args) == Some("must not stop/disable the firewall service"@),
{
    reveal_strlit("stop");
    reveal_strlit("disable");
    reveal_strlit("mask");
    reveal_strlit("firewalld");
    reveal_strlit("ufw");
    reveal_strlit("nftables");
    reveal_strlit("iptables");
    reveal_strlit("netfilter-persistent");
    reveal_strlit(".service");
    reveal_strlit("systemctl ");
    reveal_strlit("systemctl");
    reveal_strlit(" ");
    reveal_strlit("regind");
    reveal_strlit("regin");
    let sc = "systemctl"@;
    let w3 = unit + suffix;
    let cmd = "systemctl "@ + verb + " "@ + unit + suffix;
    assert(cmd =~= sc + " "@ + verb + " "@ + w3);
    assert(plain_word(sc));
    assert(plain_word(verb));
    assert(plain_word(w3)) by {
        assert forall|i: int| 0 <= i < w3.len() implies plain_char(#[trigger] w3[i]) by {
            if i < unit.len() {
                assert(w3[i] == unit[i]);
            } else {
                assert(w3[i] == suffix[i - unit.len()]);
            }
        }
    }
    // every character of the command is a plain word character or a space
    assert forall|k: int| 0 <= k < cmd.len() implies plain_char(#[trigger] cmd[k]) || cmd[k] == ' ' by {
        let l1 = sc.len() as int;
        let l2 = verb.len() as int;
        if k < l1 {
            assert(cmd[k] == sc[k]);
        } else if k == l1 {
        } else if k < l1 + 1 + l2 {
            assert(cmd[k] == verb[k - l1 - 1]);
        } else if k == l1 + 1 + l2 {
        } else {
            assert(cmd[k] == w3[k - l1 - l2 - 2]);
        }
    }
    // the lowered command is the command itself and has no redirection
    assert(all_ascii(cmd));
    assert(lower(cmd) =~= cmd);
    lemma_last_index_absent(cmd, '>');
    assert(redirect_target(lower(cmd)) is None);
    // one simple command: the whole line
    lemma_split_simple_plain(cmd, 0, Seq::empty(), Seq::empty());
    assert(Seq::<char>::empty() + cmd.subrange(0, cmd.len() as int) =~= cmd);
    let parts = seq![cmd];
    assert(split_simple_from(cmd, 0, Seq::empty(), Seq::empty()) =~= parts);
    assert(!is_ws(cmd[0]));
    assert(trim_start(cmd) == cmd);
    assert(!is_ws(cmd.last()));
    assert(trim_end(cmd) == cmd);
    assert(parts.drop_last() =~= Seq::<Seq<char>>::empty());
    assert(keep_nonempty_trimmed(Seq::<Seq<char>>::empty()) == Seq::<Seq<char>>::empty());
    assert(trim(cmd) == cmd);
    assert(keep_nonempty_trimmed(parts) =~= Seq::<Seq<char>>::empty().push(cmd));
    assert(split_simple(cmd) =~= seq![cmd]);
    // its tokens
    lemma_split_ws_three(sc, verb, w3);
    lemma_lower_plain(sc);
    lemma_lower_plain(verb);
    lemma_lower_plain(w3);
    let toks = simple_tokens(cmd);
    assert(toks =~= seq![sc, verb, w3]);
    lemma_last_index_absent(sc, '/');
    assert(basename(sc) =~= sc);
    let a = toks.drop_first();
    assert(a =~= seq![verb, w3]);
    reveal_with_fuel(strip_suffix_all, 3);
    assert(unit_base(verb) == verb);
    assert(!ends_with(unit, ".service"@)) by {
        if ends_with(unit, ".service"@) {
            let t = unit.subrange(unit.len() - 8, unit.len() as int);
            assert(t[0] == '.');
            assert(unit[unit.len() - 8] == '.');
        }
    }
    if suffix.len() == 0 {
        assert(w3 =~= unit);
    } else {
        assert(ends_with(w3, ".service"@)) by {
            assert(w3.subrange(w3.len() - 8, w3.len() as int) =~= ".service"@);
        }
        assert(w3.subrange(0, w3.len() - 8) =~= unit);
    }
    assert(unit_base(w3) == unit);
    assert(arg_test(a[0], ArgTest::StopLike));
    assert(arg_test(a[1], ArgTest::FirewallUnit));
    assert(!arg_test(a[0], ArgTest::RegindUnit));
    assert(!arg_test(a[1], ArgTest::RegindUnit));
    assert(!any_arg(a, ArgTest::RegindUnit));
    assert(any_arg(a, ArgTest::StopLike));
    assert(any_arg(a, ArgTest::FirewallUnit));
    reveal_strlit("rm");
    reveal_strlit("shred");
    reveal_strlit("unlink");
    reveal_strlit("dd");
    reveal_strlit("mkfs");
    reveal_strlit("wipefs");
    reveal_strlit("sfdisk");
    reveal_strlit("sgdisk");
    reveal_strlit("pkill");
    reveal_strlit("killall");
    assert(toks[0] == sc);
    assert(basename(toks[0]) == sc);
    assert(!is_rm_like(sc));
    assert(sc != "dd"@);
    assert(!starts_with(sc, "mkfs"@)) by {
        assert(sc[0] != "mkfs"@[0]);
        if starts_with(sc, "mkfs"@) {
            assert(sc.subrange(0, 4)[0] == sc[0]);
        }
    }
    assert(sc != "wipefs"@);
    assert(sc != "sfdisk"@ && sc != "sgdisk"@);
    assert(sc != "pkill"@ && sc != "killall"@);
    assert(sc != "ufw"@);
    assert(sc == "systemctl"@);
    assert(check_simple(toks) == Some("must not stop/disable the firewall service"@));
    assert(seq![cmd].drop_first() =~= Seq::<Seq<char>>::empty());
    assert(first_violation(seq![cmd]) == Some("must not stop/disable the firewall service"@));
}

} // verus!
