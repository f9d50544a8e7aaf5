//! Reading the output of the version-control tool: repository names,
//! remote links, history records, per-file diffs and sync counts.
use crate::text::{
    chars_of, contains, copy_range, has_infix, has_prefix, join_chars, join_with, lines_of, parse_unsigned,
    parse_unsigned_chars, replace_all, replace_chars, split_char, split_chars, split_lines, split_words,
    starts_with, string_of, trim_end_char, trim_end_len, trim_end_seq, trimmed, trimmed_chars, views_of,
    words_of,
};
use vstd::prelude::*;
use vstd::slice::{slice_subrange, slice_to_vec};

verus! {

/// A hosted remote: its provider and a web link to it.
pub struct RemoteInfo {
    pub provider: String,
    pub url: String,
}

/// One commit of the history.
pub struct GitCommit {
    pub hash: String,
    pub short_hash: String,
    pub author_name: String,
    pub author_email: String,
    pub author_date: String,
    pub subject: String,
}

/// The patch of one file in a commit.
pub struct GitCommitFileDiff {
    pub path: String,
    pub diff: String,
}

/// How a checkout stands against its upstream.
pub struct RepoSyncStatus {
    pub has_remote: bool,
    pub has_upstream: bool,
    pub ahead: u32,
    pub behind: u32,
    pub can_pull: bool,
    pub error: Option<String>,
}

/// The trailing characters of `s` after its last `/` or `:`.
pub open spec fn tail_segment(s: Seq<char>) -> Seq<char>
    decreases s.len(),
{
    if s.len() > 0 && s.last() != '/' && s.last() != ':' {
        tail_segment(s.drop_last()).push(s.last())
    } else {
        Seq::empty()
    }
}

/// The repository name a clone URL names: the last segment once trailing
/// slashes and `.git` suffixes are removed.
pub open spec fn repo_name_of(url: Seq<char>) -> Seq<char> {
    tail_segment(trim_end_seq(trim_end_char(url, '/'), ".git"@))
}

/// The repository name of a clone URL; an error when nothing is left of it.
pub fn extract_repo_name_from_url(url: &str) -> (r: Result<String, String>)
    ensures
        match r {
            Ok(name) => name@ == repo_name_of(url@) && name@.len() > 0,
            Err(e) => repo_name_of(url@).len() == 0 && e@ == "Could not determine repository name from URL"@,
        },
{
    let s = chars_of(url);
    let mut end = s.len();
    assert(s@.subrange(0, end as int) =~= s@);
    while end > 0 && s[end - 1] == '/'
        invariant
            end <= s@.len(),
            trim_end_char(url@, '/') == trim_end_char(s@.subrange(0, end as int), '/'),
            s@ == url@,
        decreases end,
    {
        assert(s@.subrange(0, end as int).drop_last() =~= s@.subrange(0, end - 1));
        end = end - 1;
    }
    let suffix = chars_of(".git");
    let stem = trim_end_len(s.as_slice(), end, suffix.as_slice());
    let mut start = stem;
    assert(s@.subrange(start as int, stem as int) =~= Seq::<char>::empty());
    while start > 0 && s[start - 1] != '/' && s[start - 1] != ':'
        invariant
            start <= stem <= s@.len(),
            tail_segment(s@.subrange(0, stem as int)) == tail_segment(s@.subrange(0, start as int)) + s@.subrange(
                start as int,
                stem as int,
            ),
        decreases start,
    {
        let ghost pre = s@.subrange(0, start as int);
        assert(pre.drop_last() =~= s@.subrange(0, start - 1));
        assert(tail_segment(pre) == tail_segment(s@.subrange(0, start - 1)).push(pre.last()));
        assert(tail_segment(s@.subrange(0, start - 1)).push(pre.last()) + s@.subrange(start as int, stem as int)
            =~= tail_segment(s@.subrange(0, start - 1)) + s@.subrange(start - 1, stem as int));
        start = start - 1;
    }
    let ghost pre = s@.subrange(0, start as int);
    assert(tail_segment(pre) =~= Seq::<char>::empty());
    assert(Seq::<char>::empty() + s@.subrange(start as int, stem as int) =~= s@.subrange(start as int, stem as int));
    if start == stem {
        return Err(String::from_str("Could not determine repository name from URL"));
    }
    let name = copy_range(s.as_slice(), start, stem);
    Ok(string_of(name.as_slice()))
}

/// The web link of a remote on `host`: an SSH address `git@host:owner/repo`
/// becomes `https://host/owner/repo`.
pub open spec fn web_link(url: Seq<char>, ssh: Seq<char>, https: Seq<char>) -> Seq<char> {
    if starts_with(url, "git@"@) {
        replace_all(url, ssh, https)
    } else {
        url
    }
}

/// The provider and web link of a remote URL, for the hosts it knows.
pub open spec fn remote_info_of(remote: Seq<char>) -> Option<(Seq<char>, Seq<char>)> {
    let url = trim_end_seq(remote, ".git"@);
    if contains(url, "github.com"@) {
        Some(("github"@, web_link(url, "git@github.com:"@, "https://github.com/"@)))
    } else if contains(url, "gitlab.com"@) {
        Some(("gitlab"@, web_link(url, "git@gitlab.com:"@, "https://gitlab.com/"@)))
    } else {
        None
    }
}

fn web_link_of(url: &[char], ssh: &str, https: &str) -> (r: Vec<char>)
    ensures
        r@ == web_link(url@, ssh@, https@),
{
    let at = chars_of("git@");
    if has_prefix(url, at.as_slice()) {
        let from = chars_of(ssh);
        let to = chars_of(https);
        if from.len() == 0 {
            return copy_range(url, 0, url.len());
        }
        replace_chars(url, from.as_slice(), to.as_slice())
    } else {
        copy_range(url, 0, url.len())
    }
}

/// The provider and web link of a remote URL, or `None` for a host other
/// than GitHub or GitLab.
pub fn parse_remote_url(remote_url: &str) -> (r: Option<RemoteInfo>)
    ensures
        match r {
            Some(info) => remote_info_of(remote_url@) == Some((info.provider@, info.url@)),
            None => remote_info_of(remote_url@) is None,
        },
{
    let s = chars_of(remote_url);
    let suffix = chars_of(".git");
    let n = trim_end_len(s.as_slice(), s.len(), suffix.as_slice());
    assert(s@.subrange(0, s@.len() as int) =~= s@);
    let url = copy_range(s.as_slice(), 0, n);
    let github = chars_of("github.com");
    let gitlab = chars_of("gitlab.com");
    if has_infix(url.as_slice(), github.as_slice()) {
        let link = web_link_of(url.as_slice(), "git@github.com:", "https://github.com/");
        Some(RemoteInfo { provider: String::from_str("github"), url: string_of(link.as_slice()) })
    } else if has_infix(url.as_slice(), gitlab.as_slice()) {
        let link = web_link_of(url.as_slice(), "git@gitlab.com:", "https://gitlab.com/");
        Some(RemoteInfo { provider: String::from_str("gitlab"), url: string_of(link.as_slice()) })
    } else {
        None
    }
}

/// The remote of a checkout from what `remote get-url` printed: nothing when
/// it printed nothing, else the parsed remote.
pub fn remote_from_output(stdout: &str) -> (r: Option<RemoteInfo>)
    ensures
        match r {
            Some(info) => trimmed(stdout@).len() > 0 && remote_info_of(trimmed(stdout@)) == Some(
                (info.provider@, info.url@),
            ),
            None => trimmed(stdout@).len() == 0 || remote_info_of(trimmed(stdout@)) is None,
        },
{
    let s = chars_of(stdout);
    let t = trimmed_chars(s.as_slice());
    if t.len() == 0 {
        return None;
    }
    let text = string_of(t.as_slice());
    parse_remote_url(text.as_str())
}

/// `s` without the prefix `p`, or `s` itself when it does not start with `p`.
pub open spec fn strip_prefix_or_self(s: Seq<char>, p: Seq<char>) -> Seq<char> {
    if starts_with(s, p) {
        s.subrange(p.len() as int, s.len() as int)
    } else {
        s
    }
}

/// The path a `diff --git a/<old> b/<new>` header names: the new path, or the
/// old one when the file was deleted.
pub open spec fn header_path(line: Seq<char>) -> Seq<char> {
    let w = words_of(line);
    if w.len() < 4 {
        "Unknown file"@
    } else {
        let left = strip_prefix_or_self(w[2], "a/"@);
        let right = strip_prefix_or_self(w[3], "b/"@);
        if right == "/dev/null"@ {
            left
        } else {
            right
        }
    }
}

fn strip_prefix_chars(s: &[char], p: &str) -> (r: Vec<char>)
    ensures
        r@ == strip_prefix_or_self(s@, p@),
{
    let pc = chars_of(p);
    if has_prefix(s, pc.as_slice()) {
        copy_range(s, pc.len(), s.len())
    } else {
        copy_range(s, 0, s.len())
    }
}

fn header_path_chars(line: &[char]) -> (r: Vec<char>)
    ensures
        r@ == header_path(line@),
{
    let w = split_words(line);
    if w.len() < 4 {
        return chars_of("Unknown file");
    }
    assert(views_of(w@)[2] == w@[2]@);
    assert(views_of(w@)[3] == w@[3]@);
    let left = strip_prefix_chars(w[2].as_slice(), "a/");
    let right = strip_prefix_chars(w[3].as_slice(), "b/");
    let null = chars_of("/dev/null");
    if crate::text::same_chars(right.as_slice(), null.as_slice()) {
        left
    } else {
        right
    }
}

/// The path named by a `diff --git` header line.
pub fn parse_path_from_diff_header(header_line: &str) -> (r: String)
    ensures
        r@ == header_path(header_line@),
{
    let s = chars_of(header_line);
    let p = header_path_chars(s.as_slice());
    string_of(p.as_slice())
}

/// The number `w` spells as a count, or zero when it is not one.
pub open spec fn count_or_zero(w: Seq<char>) -> u32 {
    match parse_unsigned(w, u32::MAX as nat) {
        Some(n) => n as u32,
        None => 0,
    }
}

/// The counts `rev-list --left-right --count` printed: behind, then ahead.
pub open spec fn sync_counts(output: Seq<char>) -> (u32, u32) {
    let w = words_of(output);
    (
        if w.len() > 0 { count_or_zero(w[0]) } else { 0 },
        if w.len() > 1 { count_or_zero(w[1]) } else { 0 },
    )
}

fn count_of(w: &[char]) -> (r: u32)
    ensures
        r == count_or_zero(w@),
{
    match parse_unsigned_chars(w, u32::MAX as u64) {
        Some(n) => n as u32,
        None => 0,
    }
}

impl RepoSyncStatus {
    /// A checkout without an `origin` remote.
    pub fn without_remote() -> (r: RepoSyncStatus)
        ensures
            !r.has_remote && !r.has_upstream && r.ahead == 0 && r.behind == 0 && !r.can_pull && r.error is None,
    {
        RepoSyncStatus { has_remote: false, has_upstream: false, ahead: 0, behind: 0, can_pull: false, error: None }
    }

    /// A checkout with a remote but no upstream branch.
    pub fn without_upstream() -> (r: RepoSyncStatus)
        ensures
            r.has_remote && !r.has_upstream && r.ahead == 0 && r.behind == 0 && !r.can_pull && r.error is None,
    {
        RepoSyncStatus { has_remote: true, has_upstream: false, ahead: 0, behind: 0, can_pull: false, error: None }
    }

    /// A checkout whose fetch from `origin` failed.
    pub fn fetch_failed() -> (r: RepoSyncStatus)
        ensures
            r.has_remote && r.has_upstream && r.ahead == 0 && r.behind == 0 && !r.can_pull,
            r.error matches Some(e) && e@ == "Failed to fetch from origin"@,
    {
        RepoSyncStatus {
            has_remote: true,
            has_upstream: true,
            ahead: 0,
            behind: 0,
            can_pull: false,
            error: Some(String::from_str("Failed to fetch from origin")),
        }
    }

    /// A checkout with an upstream, from the printed counts. It can pull
    /// when it is behind.
    pub fn from_counts(output: &str) -> (r: RepoSyncStatus)
        ensures
            r.has_remote && r.has_upstream && r.error is None,
            (r.behind, r.ahead) == sync_counts(output@),
            r.can_pull == (r.behind > 0),
    {
        let s = chars_of(output);
        let w = split_words(s.as_slice());
        let behind = if w.len() > 0 {
            assert(views_of(w@)[0] == w@[0]@);
            count_of(w[0].as_slice())
        } else {
            0
        };
        let ahead = if w.len() > 1 {
            assert(views_of(w@)[1] == w@[1]@);
            count_of(w[1].as_slice())
        } else {
            0
        };
        RepoSyncStatus { has_remote: true, has_upstream: true, ahead, behind, can_pull: behind > 0, error: None }
    }
}

/// How many commits a history listing asks for: 50 unless given, kept
/// between 1 and 200.
pub fn history_limit(limit: Option<u32>) -> (r: u32)
    ensures
        match limit {
            Some(n) => r == if n < 1 { 1 } else if n > 200 { 200 } else { n },
            None => r == 50,
        },
{
    match limit {
        Some(n) => if n < 1 { 1 } else if n > 200 { 200 } else { n },
        None => 50,
    }
}

/// The branch `branch --show-current` printed, if any.
pub fn current_branch_of(show_current: &str) -> (r: Option<String>)
    ensures
        match r {
            Some(b) => trimmed(show_current@).len() > 0 && b@ == trimmed(show_current@),
            None => trimmed(show_current@).len() == 0,
        },
{
    let s = chars_of(show_current);
    let t = trimmed_chars(s.as_slice());
    if t.len() == 0 {
        None
    } else {
        Some(string_of(t.as_slice()))
    }
}

/// The label of a detached head at the abbreviated commit `short_head`.
pub fn detached_label(short_head: &str) -> (r: String)
    ensures
        r@ == "detached@"@ + trimmed(short_head@),
{
    let s = chars_of(short_head);
    let t = trimmed_chars(s.as_slice());
    String::from_str("detached@").concat(string_of(t.as_slice()).as_str())
}

/// What a pull reports: its trimmed output, or a plain note when it printed
/// nothing.
pub fn pull_summary(output: &str) -> (r: String)
    ensures
        r@ == if trimmed(output@).len() == 0 { "Pull completed"@ } else { trimmed(output@) },
{
    let s = chars_of(output);
    let t = trimmed_chars(s.as_slice());
    if t.len() == 0 {
        String::from_str("Pull completed")
    } else {
        string_of(t.as_slice())
    }
}

/// The message of a failed tool run: its trimmed error output, else its
/// trimmed standard output, else `fallback`.
pub fn failure_message(stderr: &str, stdout: &str, fallback: &str) -> (r: String)
    ensures
        r@ == if trimmed(stderr@).len() > 0 {
            trimmed(stderr@)
        } else if trimmed(stdout@).len() > 0 {
            trimmed(stdout@)
        } else {
            fallback@
        },
{
    let e = chars_of(stderr);
    let te = trimmed_chars(e.as_slice());
    if te.len() > 0 {
        return string_of(te.as_slice());
    }
    let o = chars_of(stdout);
    let to = trimmed_chars(o.as_slice());
    if to.len() > 0 {
        return string_of(to.as_slice());
    }
    String::from_str(fallback)
}


/// Whether a line starts the patch of a file.
pub open spec fn is_diff_header(l: Seq<char>) -> bool {
    starts_with(l, "diff --git "@)
}

/// The lines of `ls` up to the next file header.
pub open spec fn body_run(ls: Seq<Seq<char>>) -> Seq<Seq<char>>
    decreases ls.len(),
{
    if ls.len() == 0 || is_diff_header(ls[0]) {
        Seq::empty()
    } else {
        seq![ls[0]] + body_run(ls.drop_first())
    }
}

/// The patches of the files in `ls`: for each header line, the path it names
/// and its lines up to the next header, joined with newlines. Lines before the
/// first header belong to no file.
pub open spec fn file_diffs(ls: Seq<Seq<char>>) -> Seq<(Seq<char>, Seq<char>)>
    decreases ls.len(),
{
    if ls.len() == 0 {
        Seq::empty()
    } else if is_diff_header(ls[0]) {
        seq![(header_path(ls[0]), join_with(seq![ls[0]] + body_run(ls.drop_first()), '\n'))] + file_diffs(
            ls.drop_first(),
        )
    } else {
        file_diffs(ls.drop_first())
    }
}

/// The path and patch of each entry.
pub open spec fn diff_views(v: Seq<GitCommitFileDiff>) -> Seq<(Seq<char>, Seq<char>)> {
    v.map_values(|d: GitCommitFileDiff| (d.path@, d.diff@))
}

/// Splits the patch output of one commit into the patches of its files.
pub fn parse_commit_file_diffs(raw_output: &str) -> (r: Vec<GitCommitFileDiff>)
    ensures
        diff_views(r@) == file_diffs(lines_of(raw_output@)),
{
    let s = chars_of(raw_output);
    let lines = split_lines(s.as_slice());
    let ghost all = views_of(lines@);
    let header = chars_of("diff --git ");
    let mut out: Vec<GitCommitFileDiff> = Vec::new();
    let mut cur_path: Option<Vec<char>> = None;
    let mut cur_text: Vec<char> = Vec::new();
    let ghost mut cur_lines: Seq<Seq<char>> = Seq::empty();
    let mut i: usize = 0;
    assert(all.subrange(0, all.len() as int) =~= all);
    while i < lines.len()
        invariant
            i <= lines@.len(),
            all == views_of(lines@),
            header@ == "diff --git "@,
            match cur_path {
                Some(p) => cur_lines.len() > 0 && cur_text@ == join_with(cur_lines, '\n') && file_diffs(all)
                    == diff_views(out@) + seq![
                    (p@, join_with(cur_lines + body_run(all.subrange(i as int, all.len() as int)), '\n')),
                ] + file_diffs(all.subrange(i as int, all.len() as int)),
                None => file_diffs(all) == diff_views(out@) + file_diffs(all.subrange(i as int, all.len() as int)),
            },
        decreases lines.len() - i,
    {
        let line = &lines[i];
        let ghost l = all[i as int];
        let ghost rest = all.subrange(i as int, all.len() as int);
        let ghost rest1 = all.subrange(i + 1, all.len() as int);
        assert(line@ == l);
        assert(rest.drop_first() =~= rest1);
        assert(rest[0] == l);
        if has_prefix(line.as_slice(), header.as_slice()) {
            if let Some(p) = cur_path {
                let ghost before = diff_views(out@);
                let d = GitCommitFileDiff { path: string_of(p.as_slice()), diff: string_of(cur_text.as_slice()) };
                out.push(d);
                assert(diff_views(out@) =~= before.push((p@, join_with(cur_lines, '\n'))));
                assert(cur_lines + body_run(rest) =~= cur_lines);
            }
            let hp = header_path_chars(line.as_slice());
            cur_path = Some(hp);
            cur_text = slice_to_vec(line.as_slice());
            proof {
                cur_lines = seq![l];
                assert(body_run(rest) =~= Seq::<Seq<char>>::empty());
            }
        } else {
            if cur_path.is_some() {
                let ghost old_lines = cur_lines;
                cur_text.push('\n');
                let mut k: usize = 0;
                let ghost base = cur_text@;
                while k < line.len()
                    invariant
                        k <= line@.len(),
                        cur_text@ == base + line@.subrange(0, k as int),
                    decreases line.len() - k,
                {
                    cur_text.push(line[k]);
                    assert(cur_text@ =~= base + line@.subrange(0, k + 1));
                    k = k + 1;
                }
                assert(line@.subrange(0, line@.len() as int) =~= line@);
                proof {
                    cur_lines = old_lines.push(l);
                    assert(cur_lines.drop_last() =~= old_lines);
                    assert(old_lines + body_run(rest) =~= cur_lines + body_run(rest1));
                }
            }
        }
        i = i + 1;
    }
    assert(all.subrange(i as int, all.len() as int) =~= Seq::<Seq<char>>::empty());
    if let Some(p) = cur_path {
        let ghost before = diff_views(out@);
        let d = GitCommitFileDiff { path: string_of(p.as_slice()), diff: string_of(cur_text.as_slice()) };
        out.push(d);
        assert(diff_views(out@) =~= before.push((p@, join_with(cur_lines, '\n'))));
        assert(cur_lines + Seq::<Seq<char>>::empty() =~= cur_lines);
    }
    assert(diff_views(out@) + Seq::<(Seq<char>, Seq<char>)>::empty() =~= diff_views(out@));
    out
}

/// The six fields of a history line (hash, short hash, author name, author
/// email, date, subject), separated by U+001F; the subject keeps any further
/// separators. `None` for a line with fewer than six fields.
pub open spec fn commit_fields(line: Seq<char>) -> Option<Seq<Seq<char>>> {
    let parts = split_char(line, '\u{1f}');
    if parts.len() < 6 {
        None
    } else {
        Some(parts.subrange(0, 5).push(join_with(parts.subrange(5, parts.len() as int), '\u{1f}')))
    }
}

/// The commits of the history lines `ls`, skipping lines that are not records.
pub open spec fn commits_of_lines(ls: Seq<Seq<char>>) -> Seq<Seq<Seq<char>>>
    decreases ls.len(),
{
    if ls.len() == 0 {
        Seq::empty()
    } else {
        match commit_fields(ls.last()) {
            Some(f) => commits_of_lines(ls.drop_last()).push(f),
            None => commits_of_lines(ls.drop_last()),
        }
    }
}

/// The fields of a commit, in record order.
pub open spec fn commit_view(c: GitCommit) -> Seq<Seq<char>> {
    seq![c.hash@, c.short_hash@, c.author_name@, c.author_email@, c.author_date@, c.subject@]
}

/// Reads the commits that a history listing printed, one record per line.
pub fn parse_git_log(output: &str) -> (r: Vec<GitCommit>)
    ensures
        r@.map_values(|c: GitCommit| commit_view(c)) == commits_of_lines(lines_of(output@)),
{
    let s = chars_of(output);
    let lines = split_lines(s.as_slice());
    let ghost all = views_of(lines@);
    let mut out: Vec<GitCommit> = Vec::new();
    let mut i: usize = 0;
    assert(all.subrange(0, 0) =~= Seq::<Seq<char>>::empty());
    while i < lines.len()
        invariant
            i <= lines@.len(),
            all == views_of(lines@),
            out@.map_values(|c: GitCommit| commit_view(c)) == commits_of_lines(all.subrange(0, i as int)),
        decreases lines.len() - i,
    {
        let ghost pre = all.subrange(0, i + 1);
        assert(pre.drop_last() =~= all.subrange(0, i as int));
        assert(pre.last() == lines@[i as int]@);
        let parts = split_chars(lines[i].as_slice(), '\u{1f}');
        let ghost pv = views_of(parts@);
        if parts.len() >= 6 {
            let tail = slice_subrange(parts.as_slice(), 5, parts.len());
            assert(views_of(tail@) =~= pv.subrange(5, pv.len() as int));
            let subject = join_chars(tail, '\u{1f}');
            let c = GitCommit {
                hash: string_of(parts[0].as_slice()),
                short_hash: string_of(parts[1].as_slice()),
                author_name: string_of(parts[2].as_slice()),
                author_email: string_of(parts[3].as_slice()),
                author_date: string_of(parts[4].as_slice()),
                subject: string_of(subject.as_slice()),
            };
            let ghost before = out@.map_values(|c: GitCommit| commit_view(c));
            out.push(c);
            assert(commit_view(c) =~= pv.subrange(0, 5).push(join_with(pv.subrange(5, pv.len() as int), '\u{1f}')));
            assert(out@.map_values(|c: GitCommit| commit_view(c)) =~= before.push(commit_view(c)));
        }
        i = i + 1;
    }
    assert(all.subrange(0, all.len() as int) =~= all);
    out
}


/// The final component of a path, as `Path::file_name` gives it.
pub uninterp spec fn final_component(p: Seq<char>) -> Option<Seq<char>>;

/// Relies on `std::path::Path::file_name`: the final component of the path,
/// or `None` when it ends in `..` or has none. A component of a `&str` path is
/// valid UTF-8, so `to_str` keeps every one.
#[verifier::external_body]
fn path_file_name(p: &str) -> (r: Option<String>)
    ensures
        match r {
            Some(n) => final_component(p@) == Some(n@),
            None => final_component(p@) is None,
        },
{
    std::path::Path::new(p).file_name().and_then(|n| n.to_str()).map(|n| n.to_string())
}

/// Checks that a directory holds a checkout and names it after its final
/// path component ("Unknown" when the path has none). Whether the directory
/// and its `.git` entry exist is read by the caller.
pub fn validate_git_repo(repo_path: &str, exists: bool, has_git_dir: bool) -> (r: Result<String, String>)
    ensures
        !exists ==> (r matches Err(e) && e@ == "Directory does not exist"@),
        exists && !has_git_dir ==> (r matches Err(e) && e@ == "The selected directory is not a Git repository"@),
        exists && has_git_dir ==> (r matches Ok(name) && name@ == match final_component(repo_path@) {
            Some(n) => n,
            None => "Unknown"@,
        }),
{
    if !exists {
        return Err(String::from_str("Directory does not exist"));
    }
    if !has_git_dir {
        return Err(String::from_str("The selected directory is not a Git repository"));
    }
    match path_file_name(repo_path) {
        Some(n) => Ok(n),
        None => Ok(String::from_str("Unknown")),
    }
}

/// What a clone needs before it runs: the trimmed URL and the name of the
/// directory to clone into. Refuses a blank URL, a destination folder that is
/// not a directory, and a URL that names no repository, in that order.
pub fn clone_plan(url: &str, parent_is_dir: bool) -> (r: Result<(String, String), String>)
    ensures
        trimmed(url@).len() == 0 ==> (r matches Err(e) && e@ == "Repository URL is required"@),
        trimmed(url@).len() > 0 && !parent_is_dir ==> (r matches Err(e) && e@
            == "Destination folder does not exist"@),
        trimmed(url@).len() > 0 && parent_is_dir && repo_name_of(trimmed(url@)).len() == 0 ==> (r matches Err(e)
            && e@ == "Could not determine repository name from URL"@),
        trimmed(url@).len() > 0 && parent_is_dir && repo_name_of(trimmed(url@)).len() > 0 ==> (r matches Ok(p)
            && p.0@ == trimmed(url@) && p.1@ == repo_name_of(trimmed(url@))),
{
    let s = chars_of(url);
    let t = trimmed_chars(s.as_slice());
    if t.len() == 0 {
        return Err(String::from_str("Repository URL is required"));
    }
    if !parent_is_dir {
        return Err(String::from_str("Destination folder does not exist"));
    }
    let trimmed_url = string_of(t.as_slice());
    match extract_repo_name_from_url(trimmed_url.as_str()) {
        Ok(name) => Ok((trimmed_url, name)),
        Err(e) => Err(e),
    }
}


/// The trimmed lines of `ls` that are not blank, in order.
pub open spec fn nonblank_trimmed(ls: Seq<Seq<char>>) -> Seq<Seq<char>>
    decreases ls.len(),
{
    if ls.len() == 0 {
        Seq::empty()
    } else if trimmed(ls.last()).len() > 0 {
        nonblank_trimmed(ls.drop_last()).push(trimmed(ls.last()))
    } else {
        nonblank_trimmed(ls.drop_last())
    }
}

/// The entries of a listing that prints one per line: each line trimmed,
/// blank lines left out.
pub fn nonblank_lines(output: &str) -> (r: Vec<String>)
    ensures
        r@.map_values(|x: String| x@) == nonblank_trimmed(lines_of(output@)),
{
    let s = chars_of(output);
    let lines = split_lines(s.as_slice());
    let ghost all = views_of(lines@);
    let mut out: Vec<String> = Vec::new();
    let mut i: usize = 0;
    assert(all.subrange(0, 0) =~= Seq::<Seq<char>>::empty());
    while i < lines.len()
        invariant
            i <= lines@.len(),
            all == views_of(lines@),
            out@.map_values(|x: String| x@) == nonblank_trimmed(all.subrange(0, i as int)),
        decreases lines.len() - i,
    {
        let ghost pre = all.subrange(0, i + 1);
        assert(pre.drop_last() =~= all.subrange(0, i as int));
        assert(pre.last() == lines@[i as int]@);
        let t = trimmed_chars(lines[i].as_slice());
        if t.len() > 0 {
            let ghost before = out@.map_values(|x: String| x@);
            out.push(string_of(t.as_slice()));
            assert(out@.map_values(|x: String| x@) =~= before.push(t@));
        }
        i = i + 1;
    }
    assert(all.subrange(0, all.len() as int) =~= all);
    out
}

/// The commit to show, trimmed; `None` when none is named, which shows
/// nothing.
pub fn commit_to_show(commit: &str) -> (r: Option<String>)
    ensures
        match r {
            Some(c) => trimmed(commit@).len() > 0 && c@ == trimmed(commit@),
            None => trimmed(commit@).len() == 0,
        },
{
    let s = chars_of(commit);
    let t = trimmed_chars(s.as_slice());
    if t.len() == 0 {
        None
    } else {
        Some(string_of(t.as_slice()))
    }
}


/// A probe of the checkout that decides how it stands against its upstream.
#[derive(PartialEq, Eq, Structural, Clone, Copy, Debug)]
pub enum SyncProbe {
    /// Whether an `origin` remote exists.
    Origin,
    /// Whether the current branch has an upstream.
    Upstream,
    /// Whether fetching from `origin` works.
    Fetch,
    /// The ahead/behind counts; read with `RepoSyncStatus::from_counts`.
    Counts,
}

/// What to do after a probe.
pub enum SyncStep {
    Probe(SyncProbe),
    Done(RepoSyncStatus),
}

pub open spec fn is_without_remote(s: RepoSyncStatus) -> bool {
    !s.has_remote && !s.has_upstream && s.ahead == 0 && s.behind == 0 && !s.can_pull && s.error is None
}

pub open spec fn is_without_upstream(s: RepoSyncStatus) -> bool {
    s.has_remote && !s.has_upstream && s.ahead == 0 && s.behind == 0 && !s.can_pull && s.error is None
}

pub open spec fn is_fetch_failed(s: RepoSyncStatus) -> bool {
    s.has_remote && s.has_upstream && s.ahead == 0 && s.behind == 0 && !s.can_pull && (s.error matches Some(e)
        && e@ == "Failed to fetch from origin"@)
}

/// The next step once `probe` has succeeded or failed: no `origin` or no
/// upstream ends the check; a fetch is made only when asked for, and a failed
/// one ends the check with its error; otherwise the counts are read.
pub fn sync_after(probe: SyncProbe, succeeded: bool, fetch: Option<bool>) -> (r: SyncStep)
    requires
        probe != SyncProbe::Counts,
    ensures
        probe == SyncProbe::Origin && !succeeded ==> (r matches SyncStep::Done(s) && is_without_remote(s)),
        probe == SyncProbe::Origin && succeeded ==> r == SyncStep::Probe(SyncProbe::Upstream),
        probe == SyncProbe::Upstream && !succeeded ==> (r matches SyncStep::Done(s) && is_without_upstream(s)),
        probe == SyncProbe::Upstream && succeeded ==> r == SyncStep::Probe(
            if fetch == Some(true) { SyncProbe::Fetch } else { SyncProbe::Counts },
        ),
        probe == SyncProbe::Fetch && !succeeded ==> (r matches SyncStep::Done(s) && is_fetch_failed(s)),
        probe == SyncProbe::Fetch && succeeded ==> r == SyncStep::Probe(SyncProbe::Counts),
{
    match probe {
        SyncProbe::Origin => if succeeded {
            SyncStep::Probe(SyncProbe::Upstream)
        } else {
            SyncStep::Done(RepoSyncStatus::without_remote())
        },
        SyncProbe::Upstream => if !succeeded {
            SyncStep::Done(RepoSyncStatus::without_upstream())
        } else if fetch == Some(true) {
            SyncStep::Probe(SyncProbe::Fetch)
        } else {
            SyncStep::Probe(SyncProbe::Counts)
        },
        _ => if succeeded {
            SyncStep::Probe(SyncProbe::Counts)
        } else {
            SyncStep::Done(RepoSyncStatus::fetch_failed())
        },
    }
}

/// Refuses to clone over something that already exists at the destination,
/// shown to the user as `shown`.
pub fn clone_destination_free(exists: bool, shown: &str) -> (r: Result<(), String>)
    ensures
        !exists <==> r is Ok,
        r matches Err(e) ==> e@ == "Destination already exists: "@ + shown@,
{
    if exists {
        Err(String::from_str("Destination already exists: ").concat(shown))
    } else {
        Ok(())
    }
}

} // verus!
