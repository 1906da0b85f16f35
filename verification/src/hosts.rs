//! The block of redirections in the system hosts file.
//!
//! The block is a run of lines between two sentinel lines. It is written
//! whole and taken out whole, never edited line by line, so that what an
//! interrupted write leaves behind is mended by the next change.
//!
//! The editor works on the text of the file and plans the change: the steps
//! to take on the file, the texts to write, and what follows when a step
//! fails.

use crate::steps::{may, must, Effect, FailureKind, Step};
use crate::text::{
    contains, find, from_chars, lines_of, push_all, split_lines, text_of, to_chars, views,
};
use vstd::prelude::*;
use vstd::string::StringExecFns;

verus! {

/// The line that opens the block.
pub const MARKER_START: &'static str = "# === FOCUSLOCK START ===";

/// The line that closes the block.
pub const MARKER_END: &'static str = "# === FOCUSLOCK END ===";

/// What stands before the domain in a line of the block: the loopback address
/// and a space.
pub const REDIRECT_PREFIX: &'static str = "127.0.0.1 ";

/// The lines of `lines` that stand outside every block bounded by a line
/// that holds `start` and the next line that holds `end`. `in_block` says
/// whether a block is open where `lines` begins. The bounding lines go too,
/// and so does a line that holds `end` where no block is open.
pub open spec fn kept_lines(
    lines: Seq<Seq<char>>,
    start: Seq<char>,
    end: Seq<char>,
    in_block: bool,
) -> Seq<Seq<char>>
    decreases lines.len(),
{
    if lines.len() == 0 {
        Seq::empty()
    } else if contains(lines[0], start) {
        kept_lines(lines.skip(1), start, end, true)
    } else if contains(lines[0], end) {
        kept_lines(lines.skip(1), start, end, false)
    } else if in_block {
        kept_lines(lines.skip(1), start, end, true)
    } else {
        seq![lines[0]] + kept_lines(lines.skip(1), start, end, false)
    }
}

/// The text made of `lines`, each followed by a line feed.
pub open spec fn join_lines(lines: Seq<Seq<char>>) -> Seq<char>
    decreases lines.len(),
{
    if lines.len() == 0 {
        Seq::empty()
    } else {
        lines[0] + seq!['\n'] + join_lines(lines.skip(1))
    }
}

/// `text` without the line feeds at its end that follow another line feed.
pub open spec fn collapse_tail(text: Seq<char>) -> Seq<char>
    decreases text.len(),
{
    if text.len() >= 2 && text[text.len() - 1] == '\n' && text[text.len() - 2] == '\n' {
        collapse_tail(text.drop_last())
    } else {
        text
    }
}

/// `content` without the blocks bounded by `start` and `end`.
pub open spec fn strip_blocks(content: Seq<char>, start: Seq<char>, end: Seq<char>) -> Seq<char> {
    collapse_tail(join_lines(kept_lines(lines_of(content), start, end, false)))
}

/// The hosts file's text once the block is taken out of `content`.
pub open spec fn unblocked(content: Seq<char>) -> Seq<char> {
    strip_blocks(content, MARKER_START@, MARKER_END@)
}

/// Whether `content` holds the line that opens the block.
pub open spec fn has_block(content: Seq<char>) -> bool {
    contains(content, MARKER_START@)
}

/// The domains that are blocked while a lock is active.
pub open spec fn blocked_domains() -> Seq<Seq<char>> {
    seq![
        "www.youtube.com"@,
        "youtube.com"@,
        "m.youtube.com"@,
        "youtu.be"@,
        "www.youtube-nocookie.com"@,
        "youtube-nocookie.com"@,
        "youtubei.googleapis.com"@,
        "yt3.ggpht.com"@,
        "music.youtube.com"@,
        "studio.youtube.com"@,
        "chzzk.naver.com"@,
        "api.chzzk.naver.com"@,
        "live.chzzk.naver.com"@,
        "m.chzzk.naver.com"@,
        "www.instagram.com"@,
        "instagram.com"@,
        "i.instagram.com"@,
        "graph.instagram.com"@,
        "api.instagram.com"@,
        "l.instagram.com"@,
        "static.cdninstagram.com"@,
        "scontent.cdninstagram.com"@,
        "www.leagueoflegends.com"@,
        "leagueoflegends.com"@,
        "signup.leagueoflegends.com"@,
        "authenticate.riotgames.com"@,
        "www.op.gg"@,
        "op.gg"@,
        "www.fow.kr"@,
        "fow.kr"@,
    ]
}

/// The views of the strings of `names`, in order.
pub open spec fn str_views(names: Seq<&'static str>) -> Seq<Seq<char>> {
    Seq::new(names.len(), |i: int| names[i]@)
}

/// One line for each domain of `domains`, in order: the loopback address, a
/// space and the domain.
pub open spec fn redirects(domains: Seq<Seq<char>>) -> Seq<Seq<char>> {
    Seq::new(domains.len(), |i: int| REDIRECT_PREFIX@ + domains[i])
}

/// The lines of a block for `domains`: the opening sentinel, the
/// redirections, the closing sentinel.
pub open spec fn block_lines(start: Seq<char>, end: Seq<char>, domains: Seq<Seq<char>>) -> Seq<
    Seq<char>,
> {
    seq![start] + redirects(domains) + seq![end]
}

/// The text that adds a block for `domains` to a file: a line feed, then the
/// lines of the block, each followed by a line feed.
pub open spec fn block_text(start: Seq<char>, end: Seq<char>, domains: Seq<Seq<char>>) -> Seq<
    char,
> {
    seq!['\n'] + join_lines(block_lines(start, end, domains))
}

/// The text that adds the block to the hosts file.
pub open spec fn block_entries() -> Seq<char> {
    block_text(MARKER_START@, MARKER_END@, blocked_domains())
}

/// The text that the block is added to, for a file that reads `content`:
/// `content` itself, or `content` without its block where it holds one.
pub open spec fn block_base(content: Seq<char>) -> Seq<char> {
    if has_block(content) {
        unblocked(content)
    } else {
        content
    }
}

/// The hosts file's text once the block is put into `content`: an older
/// block is taken out first, and the new one stands at the end.
pub open spec fn blocked(content: Seq<char>) -> Seq<char> {
    block_base(content) + block_entries()
}

/// Joining two runs of lines gives the two texts one after the other.
pub proof fn lemma_join_concat(a: Seq<Seq<char>>, b: Seq<Seq<char>>)
    ensures
        join_lines(a + b) == join_lines(a) + join_lines(b),
    decreases a.len(),
{
    if a.len() == 0 {
        assert(a + b =~= b);
        assert(join_lines(a) + join_lines(b) =~= join_lines(b));
    } else {
        lemma_join_concat(a.skip(1), b);
        assert((a + b).skip(1) =~= a.skip(1) + b);
        assert(join_lines(a + b) =~= join_lines(a) + join_lines(b));
    }
}

/// Joining one line gives the line and a line feed.
pub proof fn lemma_join_one(line: Seq<char>)
    ensures
        join_lines(seq![line]) == line + seq!['\n'],
{
    reveal_with_fuel(join_lines, 2);
    assert(seq![line].skip(1) =~= Seq::<Seq<char>>::empty());
    assert(join_lines(seq![line]) =~= line + seq!['\n']);
}

/// Takes the line feeds off the end of `text` that follow another line feed.
fn collapse(text: &mut Vec<char>)
    ensures
        final(text)@ == collapse_tail(old(text)@),
{
    while text.len() >= 2 && text[text.len() - 1] == '\n' && text[text.len() - 2] == '\n'
        invariant
            collapse_tail(text@) == collapse_tail(old(text)@),
        decreases text.len(),
    {
        text.pop();
    }
}

/// The text of the lines of `lines` that `kept_lines` keeps, each followed by
/// a line feed.
fn join_kept(lines: &Vec<Vec<char>>, start: &Vec<char>, end: &Vec<char>) -> (out: Vec<char>)
    ensures
        out@ == join_lines(kept_lines(views(lines@), start@, end@, false)),
{
    let mut out: Vec<char> = Vec::new();
    let mut in_block = false;
    let mut i: usize = 0;
    assert(views(lines@).skip(0) =~= views(lines@));
    while i < lines.len()
        invariant
            i <= lines.len(),
            out@ + join_lines(kept_lines(views(lines@).skip(i as int), start@, end@, in_block))
                == join_lines(kept_lines(views(lines@), start@, end@, false)),
        decreases lines.len() - i,
    {
        let ghost rest = views(lines@).skip(i as int);
        assert(rest[0] == lines@[i as int]@);
        assert(rest.skip(1) =~= views(lines@).skip(i + 1));
        if find(&lines[i], start) {
            in_block = true;
        } else if find(&lines[i], end) {
            in_block = false;
        } else if !in_block {
            proof {
                let tail = kept_lines(rest.skip(1), start@, end@, false);
                let kept = seq![rest[0]] + tail;
                assert(kept[0] == rest[0]);
                assert(kept.skip(1) =~= tail);
                assert(out@ + rest[0] + seq!['\n'] + join_lines(tail) =~= out@ + join_lines(kept));
            }
            push_all(&mut out, &lines[i]);
            out.push('\n');
        }
        i += 1;
    }
    assert(out@ + Seq::<char>::empty() =~= out@);
    out
}

/// The text that adds a block for `domains` to a file.
fn block_text_for(start: &Vec<char>, end: &Vec<char>, domains: &Vec<&'static str>) -> (out: Vec<
    char,
>)
    ensures
        out@ == block_text(start@, end@, str_views(domains@)),
{
    let prefix = to_chars(REDIRECT_PREFIX);
    let ghost lines = redirects(str_views(domains@));
    let mut out: Vec<char> = Vec::new();
    out.push('\n');
    push_all(&mut out, start);
    out.push('\n');
    proof {
        lemma_join_one(start@);
        assert(lines.take(0) =~= Seq::<Seq<char>>::empty());
        assert(seq![start@] + lines.take(0) =~= seq![start@]);
        assert(out@ =~= seq!['\n'] + join_lines(seq![start@] + lines.take(0)));
    }
    let mut i: usize = 0;
    while i < domains.len()
        invariant
            i <= domains.len(),
            prefix@ == REDIRECT_PREFIX@,
            lines == redirects(str_views(domains@)),
            out@ == seq!['\n'] + join_lines(seq![start@] + lines.take(i as int)),
        decreases domains.len() - i,
    {
        let domain = to_chars(domains[i]);
        proof {
            let line = prefix@ + domain@;
            assert(line == lines[i as int]);
            lemma_join_one(line);
            lemma_join_concat(seq![start@] + lines.take(i as int), seq![line]);
            assert(seq![start@] + lines.take(i as int) + seq![line] =~= seq![start@] + lines.take(
                i + 1,
            ));
            assert(out@ + prefix@ + domain@ + seq!['\n'] =~= seq!['\n'] + (join_lines(
                seq![start@] + lines.take(i as int),
            ) + (line + seq!['\n'])));
        }
        push_all(&mut out, &prefix);
        push_all(&mut out, &domain);
        out.push('\n');
        i += 1;
    }
    proof {
        assert(lines.take(i as int) =~= lines);
        lemma_join_one(end@);
        lemma_join_concat(seq![start@] + lines, seq![end@]);
        assert(out@ + end@ + seq!['\n'] =~= seq!['\n'] + (join_lines(seq![start@] + lines) + (end@
            + seq!['\n'])));
    }
    push_all(&mut out, end);
    out.push('\n');
    out
}

/// What went wrong while the hosts file was read or changed.
#[derive(Debug)]
pub enum HostsError {
    /// The file could not be read, or a write to it broke off. Holds the
    /// cause as the system gave it.
    ReadError(String),
    /// The file could not be opened for writing, or not replaced.
    PermissionDenied,
    /// No copy of the file could be put aside.
    BackupFailed,
}

/// What `HostsError::message` gives for a failed read with cause `cause`.
pub open spec fn read_error_message(cause: Seq<char>) -> Seq<char> {
    "Failed to read hosts file: "@ + cause
}

impl HostsError {
    /// The words in which the error is told to the user.
    pub open spec fn message_text(&self) -> Seq<char> {
        match self {
            HostsError::ReadError(cause) => read_error_message(cause@),
            HostsError::PermissionDenied => "Permission denied. Run as administrator."@,
            HostsError::BackupFailed => "Failed to backup hosts file"@,
        }
    }

    /// The words in which the error is told to the user.
    pub fn message(&self) -> (text: String)
        ensures
            text@ == self.message_text(),
    {
        match self {
            HostsError::ReadError(cause) => {
                let mut text = "Failed to read hosts file: ".to_owned();
                text.append(cause.as_str());
                text
            },
            HostsError::PermissionDenied => "Permission denied. Run as administrator.".to_owned(),
            HostsError::BackupFailed => "Failed to backup hosts file".to_owned(),
        }
    }
}

/// Whether the hosts file was read: `hosts` is what reading it gave, its text
/// or the cause of the failure.
pub open spec fn was_read(hosts: Result<&str, &str>) -> bool {
    hosts is Ok
}

/// Whether the hosts file was read and holds the block. A file that could
/// not be read counts as holding none.
pub open spec fn holds_block(hosts: Result<&str, &str>) -> bool {
    hosts matches Ok(content) && has_block(content@)
}

/// The steps that take the block out: the file is replaced by its text
/// without the block, which fails as a denied permission, and the system's
/// cache of names is flushed, if that succeeds.
pub open spec fn unblock_steps() -> Seq<Step> {
    seq![must(Effect::ReplaceHosts, FailureKind::PermissionDenied), may(Effect::FlushDns)]
}

/// The steps that put the block in. Where the file held a block, that is
/// taken out first. Then the file is read again, opened for adding to its
/// end, which fails as a denied permission, and the block added; a read that
/// fails or an addition that breaks off is a read error. At the end the
/// system's cache of names is flushed, if that succeeds.
pub open spec fn block_steps(had_block: bool) -> Seq<Step> {
    (if had_block {
        unblock_steps()
    } else {
        Seq::empty()
    }) + seq![
        must(Effect::ProbeHosts, FailureKind::HostsRead),
        must(Effect::OpenHosts, FailureKind::PermissionDenied),
        must(Effect::AppendHosts, FailureKind::HostsRead),
        may(Effect::FlushDns),
    ]
}

/// A change to the hosts file: the steps to take, the texts they write, and
/// what the change comes to where none of the steps ends it.
#[derive(Debug)]
pub struct HostsPlan {
    /// The steps, in the order in which they are taken.
    pub steps: Vec<Step>,
    /// The text that `ReplaceHosts` writes.
    pub replacement: Option<String>,
    /// The text that `AppendHosts` adds.
    pub addition: Option<String>,
    /// `Ok` where the file was read; else the read error.
    pub outcome: Result<(), HostsError>,
}

impl HostsPlan {
    /// The text of a file that read `content`, once the steps of this plan
    /// are taken.
    pub open spec fn applied_to(&self, content: Seq<char>) -> Seq<char> {
        (match self.replacement {
            Some(text) => text@,
            None => content,
        }) + (match self.addition {
            Some(text) => text@,
            None => Seq::empty(),
        })
    }

    /// The plan of a change that cannot be made, since the file was not
    /// read: no steps, and the read error with `cause`.
    pub open spec fn is_unread(&self, cause: Seq<char>) -> bool {
        &&& self.steps@ == Seq::<Step>::empty()
        &&& self.replacement is None
        &&& self.addition is None
        &&& self.outcome matches Err(HostsError::ReadError(text))
        &&& text@ == cause
    }

    /// The plan for a file that was not read.
    fn unread(cause: &str) -> (plan: HostsPlan)
        ensures
            plan.is_unread(cause@),
    {
        HostsPlan {
            steps: Vec::new(),
            replacement: None,
            addition: None,
            outcome: Err(HostsError::ReadError(cause.to_owned())),
        }
    }
}

/// The system on which the hosts file lies.
#[derive(Clone, Copy, Debug, PartialEq, Eq, Structural)]
pub enum Platform {
    Windows,
    MacOs,
    Other,
}

/// The path of the hosts file on `platform`.
pub open spec fn hosts_path_of(platform: Platform) -> Seq<char> {
    match platform {
        Platform::Windows => "C:\\Windows\\System32\\drivers\\etc\\hosts"@,
        Platform::MacOs => "/etc/hosts"@,
        Platform::Other => "/etc/hosts"@,
    }
}

/// The editor of the block of redirections in the hosts file.
pub struct HostsBlocker {
    hosts_path: String,
    marker_start: String,
    marker_end: String,
}

impl HostsBlocker {
    #[verifier::type_invariant]
    spec fn sentinels_fixed(self) -> bool {
        &&& self.marker_start@ == MARKER_START@
        &&& self.marker_end@ == MARKER_END@
    }

    /// The path of the file that this editor is for.
    pub closed spec fn path(&self) -> Seq<char> {
        self.hosts_path@
    }

    /// The editor for the hosts file of a system that is not Windows.
    pub fn new() -> (blocker: Self)
        ensures
            blocker.path() == "/etc/hosts"@,
    {
        Self::for_platform(Platform::Other)
    }

    /// The editor for the hosts file of `platform`.
    pub fn for_platform(platform: Platform) -> (blocker: Self)
        ensures
            blocker.path() == hosts_path_of(platform),
    {
        let hosts_path = match platform {
            Platform::Windows => "C:\\Windows\\System32\\drivers\\etc\\hosts",
            Platform::MacOs => "/etc/hosts",
            Platform::Other => "/etc/hosts",
        };
        HostsBlocker {
            hosts_path: hosts_path.to_owned(),
            marker_start: MARKER_START.to_owned(),
            marker_end: MARKER_END.to_owned(),
        }
    }

    /// The path of the file that this editor is for.
    pub fn hosts_path(&self) -> (path: &str)
        ensures
            path@ == self.path(),
    {
        self.hosts_path.as_str()
    }

    /// The domains that are blocked while a lock is active.
    pub fn get_blocked_domains() -> (domains: Vec<&'static str>)
        ensures
            str_views(domains@) == blocked_domains(),
    {
        let domains = vec![
            "www.youtube.com",
            "youtube.com",
            "m.youtube.com",
            "youtu.be",
            "www.youtube-nocookie.com",
            "youtube-nocookie.com",
            "youtubei.googleapis.com",
            "yt3.ggpht.com",
            "music.youtube.com",
            "studio.youtube.com",
            "chzzk.naver.com",
            "api.chzzk.naver.com",
            "live.chzzk.naver.com",
            "m.chzzk.naver.com",
            "www.instagram.com",
            "instagram.com",
            "i.instagram.com",
            "graph.instagram.com",
            "api.instagram.com",
            "l.instagram.com",
            "static.cdninstagram.com",
            "scontent.cdninstagram.com",
            "www.leagueoflegends.com",
            "leagueoflegends.com",
            "signup.leagueoflegends.com",
            "authenticate.riotgames.com",
            "www.op.gg",
            "op.gg",
            "www.fow.kr",
            "fow.kr",
        ];
        assert(str_views(domains@) =~= blocked_domains());
        domains
    }

    /// Whether the block stands in the hosts file, where `hosts` is what
    /// reading the file gave: whether the file was read and the opening
    /// sentinel occurs in it. A file that could not be read counts as not
    /// blocked.
    pub fn is_blocked(&self, hosts: Result<&str, &str>) -> (blocked: bool)
        ensures
            blocked == holds_block(hosts),
    {
        proof {
            use_type_invariant(self);
        }
        match hosts {
            Ok(content) => {
                let text = to_chars(content);
                let start = to_chars(self.marker_start.as_str());
                find(&text, &start)
            },
            Err(_) => false,
        }
    }

    /// What a file that reads `content` must read once the block is taken
    /// out: the lines outside the sentinels, each ended by a line feed, with
    /// the empty lines at the end reduced to none. A file without a block
    /// keeps its lines.
    pub fn without_block(&self, content: &str) -> (out: String)
        ensures
            out@ == unblocked(content@),
    {
        proof {
            use_type_invariant(self);
        }
        let text = to_chars(content);
        let start = to_chars(self.marker_start.as_str());
        let end = to_chars(self.marker_end.as_str());
        let lines = split_lines(&text);
        let mut out = join_kept(&lines, &start, &end);
        collapse(&mut out);
        from_chars(&out)
    }

    /// The text that adds the block to the file: a line feed, the opening
    /// sentinel, one redirection to the loopback address for each blocked
    /// domain, and the closing sentinel, each on a line of its own.
    pub fn block_addition(&self) -> (out: String)
        ensures
            out@ == block_entries(),
    {
        proof {
            use_type_invariant(self);
        }
        let start = to_chars(self.marker_start.as_str());
        let end = to_chars(self.marker_end.as_str());
        let domains = Self::get_blocked_domains();
        let entries = block_text_for(&start, &end, &domains);
        from_chars(&entries)
    }

    /// Plans taking the block out of the hosts file, where `hosts` is what
    /// reading the file gave.
    ///
    /// A file that could not be read gives a read error and no steps. Else
    /// the file is replaced by what `without_block` gives for its text,
    /// also where it holds no block; a failure to replace it is a denied
    /// permission. After that the system's cache of names is flushed, and a
    /// failure of that is passed over.
    pub fn unblock(&self, hosts: Result<&str, &str>) -> (plan: HostsPlan)
        ensures
            match hosts {
                Ok(content) => {
                    &&& plan.steps@ == unblock_steps()
                    &&& text_of(plan.replacement) == Some(unblocked(content@))
                    &&& plan.addition is None
                    &&& plan.outcome is Ok
                    &&& plan.applied_to(content@) == unblocked(content@)
                },
                Err(cause) => plan.is_unread(cause@),
            },
    {
        match hosts {
            Ok(content) => {
                let mut steps: Vec<Step> = Vec::new();
                steps.push(Step::must(Effect::ReplaceHosts, FailureKind::PermissionDenied));
                steps.push(Step::may(Effect::FlushDns));
                assert(steps@ =~= unblock_steps());
                let replacement = self.without_block(content);
                assert(replacement@ + Seq::<char>::empty() =~= replacement@);
                HostsPlan { steps, replacement: Some(replacement), addition: None, outcome: Ok(()) }
            },
            Err(cause) => HostsPlan::unread(cause),
        }
    }

    /// Plans putting the block into the hosts file, where `hosts` is what
    /// reading the file gave.
    ///
    /// A file that could not be read gives a read error and no steps. Where
    /// the file holds a block already, that is taken out first, as `unblock`
    /// does it. Then the file is read again and opened, and the block is
    /// added at its end: the lines of the file outside the block are not
    /// written again. A failure to open the file is a denied permission, a
    /// failure to read it or to add to it a read error. After that the
    /// system's cache of names is flushed, and a failure of that is passed
    /// over.
    pub fn block(&self, hosts: Result<&str, &str>) -> (plan: HostsPlan)
        ensures
            match hosts {
                Ok(content) => {
                    &&& plan.steps@ == block_steps(has_block(content@))
                    &&& text_of(plan.replacement) == if has_block(content@) {
                        Some(unblocked(content@))
                    } else {
                        None
                    }
                    &&& text_of(plan.addition) == Some(block_entries())
                    &&& plan.outcome is Ok
                    &&& plan.applied_to(content@) == blocked(content@)
                },
                Err(cause) => plan.is_unread(cause@),
            },
    {
        match hosts {
            Ok(content) => {
                let mut steps: Vec<Step> = Vec::new();
                let replacement = if self.is_blocked(hosts) {
                    steps.push(Step::must(Effect::ReplaceHosts, FailureKind::PermissionDenied));
                    steps.push(Step::may(Effect::FlushDns));
                    Some(self.without_block(content))
                } else {
                    None
                };
                steps.push(Step::must(Effect::ProbeHosts, FailureKind::HostsRead));
                steps.push(Step::must(Effect::OpenHosts, FailureKind::PermissionDenied));
                steps.push(Step::must(Effect::AppendHosts, FailureKind::HostsRead));
                steps.push(Step::may(Effect::FlushDns));
                assert(steps@ =~= block_steps(has_block(content@)));
                HostsPlan {
                    steps,
                    replacement,
                    addition: Some(self.block_addition()),
                    outcome: Ok(()),
                }
            },
            Err(cause) => HostsPlan::unread(cause),
        }
    }
}

impl Default for HostsBlocker {
    /// The editor for the hosts file of a system that is not Windows.
    fn default() -> (blocker: Self)
        ensures
            blocker.path() == "/etc/hosts"@,
    {
        Self::new()
    }
}

} // verus!
