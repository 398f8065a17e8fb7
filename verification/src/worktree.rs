//! Worktree-change notice: parsing `git status --porcelain=2 -z` output,
//! fingerprinting the dirty paths, and deciding when to warn that the working
//! tree changed outside the session.
use vstd::prelude::*;
use crate::carry_over::seq_views;
use crate::text::contains_string;
use crate::text::join_lines;
use crate::text::join_nl;
use crate::text::sort_strings;
use crate::text::sorted_views;

verus! {

broadcast use vstd::seq::Seq::group_seq_extra;

/// At most this many dirty paths are listed in a warning message.
pub const MAX_FILES: usize = 5;

/// What std's UTF-8 decoding returns on the given bytes: the decoded
/// characters, or nothing when the bytes are not valid UTF-8.
pub uninterp spec fn utf8_decode(b: Seq<u8>) -> Option<Seq<char>>;

/// Relies on std's str::from_utf8: decodes the bytes as UTF-8 exactly when
/// they are valid UTF-8; the result depends on the bytes alone.
#[verifier::external_body]
fn decode_utf8(bytes: &[u8]) -> (r: Option<String>)
    ensures
        r is Some <==> utf8_decode(bytes@) is Some,
        r matches Some(s) ==> utf8_decode(bytes@) == Some(s@),
{
    match std::str::from_utf8(bytes) {
        Ok(s) => Some(s.to_owned()),
        Err(_) => None,
    }
}

/// What sha1's digest of the UTF-8 bytes of `s`, written as lowercase hex,
/// returns; it depends on the input alone.
pub uninterp spec fn sha1_hex_of(s: Seq<char>) -> Seq<char>;

/// Relies on sha1::Sha1::digest and the lowercase-hex formatting of its
/// 20-byte output: two hex digits per byte, so 40 characters.
#[verifier::external_body]
fn sha1_hex(s: &str) -> (r: String)
    ensures
        r@ == sha1_hex_of(s@),
        r@.len() == 40,
{
    let digest = <sha1::Sha1 as sha1::Digest>::digest(s.as_bytes());
    format!("{digest:x}")
}

#[derive(Debug, PartialEq, Eq)]
pub struct WorktreeSnapshot {
    pub dirty_paths: Vec<String>,
    pub fingerprint: String,
}

/// The index of the last space of `s`, when it has one.
pub open spec fn last_space_index(s: Seq<char>) -> Option<int>
    decreases s.len(),
{
    if s.len() == 0 {
        None
    } else if s.last() == ' ' {
        Some(s.len() - 1)
    } else {
        last_space_index(s.drop_last())
    }
}

/// The path of one porcelain-v2 status entry: `1` (changed) and `2` (renamed)
/// entries carry the path after the last space, `?` (untracked) entries carry
/// it from the third character on; `!` (ignored) and anything else have none.
pub open spec fn entry_path_chars(s: Seq<char>) -> Option<Seq<char>> {
    if s.len() == 0 {
        None
    } else if s.first() == '?' {
        if s.len() >= 2 {
            Some(s.skip(2))
        } else {
            None
        }
    } else if s.first() == '1' || s.first() == '2' {
        match last_space_index(s) {
            Some(k) => Some(s.skip(k + 1)),
            None => None,
        }
    } else {
        None
    }
}

pub open spec fn entry_path_of_bytes(e: Seq<u8>) -> Option<Seq<char>> {
    match utf8_decode(e) {
        Some(cs) => entry_path_chars(cs),
        None => None,
    }
}

#[verifier::loop_isolation(false)]
pub fn parse_porcelain_v2_entry_path(entry: &[u8]) -> (r: Option<String>)
    ensures
        r is Some <==> entry_path_of_bytes(entry@) is Some,
        r matches Some(p) ==> entry_path_of_bytes(entry@) == Some(p@),
{
    let decoded = match decode_utf8(entry) {
        Some(s) => s,
        None => {
            return None;
        },
    };
    let s = decoded.as_str();
    let n = s.unicode_len();
    if n == 0 {
        return None;
    }
    let first = s.get_char(0);
    if first == '?' {
        if n >= 2 {
            Some(s.substring_char(2, n).to_owned())
        } else {
            None
        }
    } else if first == '1' || first == '2' {
        let mut k: usize = n;
        proof {
            assert(s@.take(n as int) =~= s@);
        }
        while k > 0 && s.get_char(k - 1) != ' '
            invariant
                k <= n,
                last_space_index(s@) == last_space_index(s@.take(k as int)),
            decreases k,
        {
            proof {
                assert(s@.take(k as int).last() == s@[k - 1]);
                assert(s@.take(k as int).drop_last() =~= s@.take(k - 1));
            }
            k = k - 1;
        }
        if k == 0 {
            proof {
                assert(s@.take(0) =~= Seq::<char>::empty());
                assert(last_space_index(s@) is None);
            }
            None
        } else {
            proof {
                assert(s@.take(k as int).last() == s@[k - 1]);
                assert(last_space_index(s@) == Some(k - 1));
            }
            Some(s.substring_char(k, n).to_owned())
        }
    } else {
        None
    }
}

/// The byte views of a list of byte segments.
pub open spec fn byte_views(s: Seq<Vec<u8>>) -> Seq<Seq<u8>> {
    s.map_values(|v: Vec<u8>| v@)
}

/// The segments of `s` between NUL bytes, as `[u8]::split` yields them: `n`
/// separators make `n + 1` segments, empty ones included.
pub open spec fn split_nul(s: Seq<u8>) -> Seq<Seq<u8>>
    decreases s.len(),
{
    if s.len() == 0 {
        seq![Seq::<u8>::empty()]
    } else if s.last() == 0 {
        split_nul(s.drop_last()).push(Seq::<u8>::empty())
    } else {
        let r = split_nul(s.drop_last());
        r.update(r.len() - 1, r.last().push(s.last()))
    }
}

#[verifier::loop_isolation(false)]
fn split_nul_bytes(input: &[u8]) -> (r: Vec<Vec<u8>>)
    ensures
        byte_views(r@) == split_nul(input@),
{
    let mut segs: Vec<Vec<u8>> = Vec::new();
    let mut cur: Vec<u8> = Vec::new();
    let mut i: usize = 0;
    proof {
        assert(input@.take(0) =~= Seq::<u8>::empty());
        assert(byte_views(segs@).push(cur@) =~= split_nul(input@.take(0)));
    }
    while i < input.len()
        invariant
            i <= input@.len(),
            byte_views(segs@).push(cur@) == split_nul(input@.take(i as int)),
        decreases input@.len() - i,
    {
        let ghost pre = input@.take(i as int);
        proof {
            assert(input@.take(i + 1) =~= pre.push(input@[i as int]));
            assert(pre.push(input@[i as int]).drop_last() =~= pre);
        }
        let ghost oldcur = cur@;
        let b = input[i];
        if b == 0 {
            segs.push(cur);
            cur = Vec::new();
            proof {
                assert(byte_views(segs@).push(cur@) =~= split_nul(input@.take(i + 1)));
            }
        } else {
            cur.push(b);
            proof {
                assert(split_nul(pre) == byte_views(segs@).push(oldcur));
                assert(byte_views(segs@).push(cur@) =~= split_nul(input@.take(i + 1)));
            }
        }
        i = i + 1;
    }
    proof {
        assert(input@.take(input@.len() as int) =~= input@);
    }
    segs.push(cur);
    segs
}

/// The paths of the status entries, in order, stopping once `limit` paths
/// were collected (a limit of zero still admits the first path, matching the
/// collect-then-check loop).
pub open spec fn paths_of_segments(segs: Seq<Seq<u8>>, limit: int) -> Seq<Seq<char>>
    decreases segs.len(),
{
    if segs.len() == 0 {
        Seq::empty()
    } else if segs.first().len() == 0 {
        paths_of_segments(segs.drop_first(), limit)
    } else {
        match entry_path_of_bytes(segs.first()) {
            Some(p) => if limit <= 1 {
                seq![p]
            } else {
                seq![p] + paths_of_segments(segs.drop_first(), limit - 1)
            },
            None => paths_of_segments(segs.drop_first(), limit),
        }
    }
}

pub open spec fn z_paths_spec(input: Seq<u8>, limit: int) -> Seq<Seq<char>> {
    paths_of_segments(split_nul(input), limit)
}

#[verifier::loop_isolation(false)]
pub fn parse_porcelain_v2_z_paths(input: &[u8], limit: usize) -> (r: Vec<String>)
    ensures
        seq_views(r@) == z_paths_spec(input@, limit as int),
{
    let segs = split_nul_bytes(input);
    let ghost bviews = byte_views(segs@);
    let mut r: Vec<String> = Vec::new();
    let mut i: usize = 0;
    let mut done = false;
    proof {
        assert(bviews.skip(0) =~= bviews);
        assert(seq_views(r@) =~= Seq::<Seq<char>>::empty());
    }
    while i < segs.len() && !done
        invariant
            i <= segs@.len(),
            !done ==> seq_views(r@) + paths_of_segments(
                bviews.skip(i as int),
                limit as int - r@.len(),
            ) == z_paths_spec(input@, limit as int),
            done ==> seq_views(r@) == z_paths_spec(input@, limit as int),
        decreases segs@.len() - i, (if done { 0int } else { 1int }),
    {
        let ghost suf = bviews.skip(i as int);
        let ghost rem = limit as int - r@.len();
        proof {
            assert(suf.first() == segs@[i as int]@);
            assert(suf.drop_first() =~= bviews.skip(i + 1));
        }
        if segs[i].len() > 0 {
            match parse_porcelain_v2_entry_path(segs[i].as_slice()) {
                Some(p) => {
                    r.push(p);
                    proof {
                        assert(seq_views(r@) =~= seq_views(r@.drop_last()).push(p@));
                        assert(seq_views(r@.drop_last()) + (seq![p@] + paths_of_segments(
                            bviews.skip(i + 1),
                            rem - 1,
                        )) =~= seq_views(r@) + paths_of_segments(bviews.skip(i + 1), rem - 1));
                        assert(seq_views(r@.drop_last()) + seq![p@] =~= seq_views(r@));
                    }
                    if r.len() >= limit {
                        done = true;
                    }
                },
                None => {
                },
            }
        }
        i = i + 1;
    }
    proof {
        if !done {
            assert(bviews.skip(segs@.len() as int) =~= Seq::<Seq<u8>>::empty());
            assert(seq_views(r@) + Seq::<Seq<char>>::empty() =~= seq_views(r@));
        }
    }
    r
}

pub fn fingerprint_paths(paths: &Vec<String>) -> (r: String)
    ensures
        r@ == sha1_hex_of(join_nl(seq_views(paths@))),
        r@.len() == 40,
{
    let joined = join_lines(paths);
    sha1_hex(joined.as_str())
}

/// Builds a worktree snapshot from the raw bytes of
/// `git status --porcelain=2 -z`: the parsed dirty paths, sorted, with their
/// fingerprint.
pub fn snapshot_from_status_output(stdout: &[u8]) -> (r: WorktreeSnapshot)
    ensures
        seq_views(r.dirty_paths@) == sorted_views(z_paths_spec(stdout@, MAX_FILES as int + 1)),
        r.fingerprint@ == sha1_hex_of(
            join_nl(sorted_views(z_paths_spec(stdout@, MAX_FILES as int + 1))),
        ),
{
    let mut paths = parse_porcelain_v2_z_paths(stdout, MAX_FILES + 1);
    sort_strings(&mut paths);
    let fingerprint = fingerprint_paths(&paths);
    WorktreeSnapshot { dirty_paths: paths, fingerprint }
}

/// The predicate that keeps a current dirty path: in neither the baseline's
/// dirty paths nor the paths this session itself touched.
pub open spec fn not_attributed(
    baseline: Seq<Seq<char>>,
    touched: Seq<Seq<char>>,
) -> spec_fn(Seq<char>) -> bool {
    |p: Seq<char>| !baseline.contains(p) && !touched.contains(p)
}

/// The current dirty paths not present in the baseline and not touched by the
/// session itself, in their current order.
pub open spec fn external_changed(
    baseline: Seq<Seq<char>>,
    current: Seq<Seq<char>>,
    touched: Seq<Seq<char>>,
) -> Seq<Seq<char>> {
    current.filter(not_attributed(baseline, touched))
}

#[verifier::loop_isolation(false)]
pub fn compute_external_changed_paths(
    baseline: &WorktreeSnapshot,
    current: &WorktreeSnapshot,
    last_turn_codex_touched_paths: &[String],
) -> (r: Vec<String>)
    ensures
        seq_views(r@) == external_changed(
            seq_views(baseline.dirty_paths@),
            seq_views(current.dirty_paths@),
            seq_views(last_turn_codex_touched_paths@),
        ),
{
    let ghost bviews = seq_views(baseline.dirty_paths@);
    let ghost tviews = seq_views(last_turn_codex_touched_paths@);
    let ghost cviews = seq_views(current.dirty_paths@);
    let ghost pred = not_attributed(bviews, tviews);
    let mut r: Vec<String> = Vec::new();
    let mut i: usize = 0;
    proof {
        assert(cviews.take(0) =~= Seq::<Seq<char>>::empty());
        assert(seq_views(r@) =~= cviews.take(0).filter(pred));
    }
    while i < current.dirty_paths.len()
        invariant
            i <= current.dirty_paths@.len(),
            seq_views(r@) == cviews.take(i as int).filter(pred),
        decreases current.dirty_paths@.len() - i,
    {
        let p = &current.dirty_paths[i];
        proof {
            assert(cviews.take(i + 1) =~= cviews.take(i as int).push(cviews[i as int]));
            assert(cviews.take(i + 1).filter(pred) == cviews.take(i as int).push(
                cviews[i as int],
            ).filter(pred));
            assert(cviews[i as int] == p@);
        }
        let in_baseline = contains_string(baseline.dirty_paths.as_slice(), p);
        let in_touched = contains_string(last_turn_codex_touched_paths, p);
        if !in_baseline && !in_touched {
            r.push(p.clone());
            proof {
                assert(seq_views(r@) =~= seq_views(r@.drop_last()).push(p@));
            }
        }
        proof {
            assert(seq_views(r@) =~= cviews.take(i + 1).filter(pred));
        }
        i = i + 1;
    }
    proof {
        assert(cviews.take(cviews.len() as int) =~= cviews);
    }
    r
}

pub fn compute_external_changed_paths_unattributed(
    baseline: &WorktreeSnapshot,
    current: &WorktreeSnapshot,
) -> (r: Vec<String>)
    ensures
        seq_views(r@) == external_changed(
            seq_views(baseline.dirty_paths@),
            seq_views(current.dirty_paths@),
            Seq::empty(),
        ),
{
    let none: [String; 0] = [];
    let r = compute_external_changed_paths(baseline, current, &none);
    proof {
        assert(seq_views(none@) =~= Seq::<Seq<char>>::empty());
    }
    r
}

/// Warn when some path changed outside the session, or when the set of dirty
/// paths changed shape (fingerprints differ) and the baseline had some.
pub open spec fn should_warn_spec(
    baseline: WorktreeSnapshot,
    current: WorktreeSnapshot,
    external: Seq<Seq<char>>,
) -> bool {
    external.len() > 0 || (baseline.fingerprint@ != current.fingerprint@
        && baseline.dirty_paths@.len() > 0)
}

pub fn should_warn_external_change(
    baseline: &WorktreeSnapshot,
    current: &WorktreeSnapshot,
    external_paths: &[String],
) -> (r: bool)
    ensures
        r == should_warn_spec(*baseline, *current, seq_views(external_paths@)),
{
    if external_paths.len() > 0 {
        return true;
    }
    !(baseline.fingerprint == current.fingerprint) && baseline.dirty_paths.len() > 0
}

pub fn should_pause(bypass_once: bool, baseline: &WorktreeSnapshot, current: &WorktreeSnapshot)
    -> (r: bool)
    ensures
        r == (!bypass_once && should_warn_spec(
            *baseline,
            *current,
            external_changed(
                seq_views(baseline.dirty_paths@),
                seq_views(current.dirty_paths@),
                Seq::empty(),
            ),
        )),
{
    if bypass_once {
        return false;
    }
    let external = compute_external_changed_paths_unattributed(baseline, current);
    should_warn_external_change(baseline, current, external.as_slice())
}

pub open spec fn warning_header_view() -> Seq<char> {
    "Working tree changed outside this session since last turn. If this was intentional, tell Codex what changed."@
}

/// The sorted paths to display: at most `MAX_FILES`, the last replaced by an
/// ellipsis when more were dropped.
pub open spec fn display_list(external: Seq<Seq<char>>) -> Seq<Seq<char>> {
    let sorted = sorted_views(external);
    if sorted.len() > MAX_FILES {
        sorted.take(MAX_FILES as int).update(MAX_FILES as int - 1, "..."@)
    } else {
        sorted
    }
}

/// One `- <path>` line per path, each preceded by a newline.
pub open spec fn bullets(paths: Seq<Seq<char>>) -> Seq<char>
    decreases paths.len(),
{
    if paths.len() == 0 {
        Seq::empty()
    } else {
        bullets(paths.drop_last()) + "\n- "@ + paths.last()
    }
}

pub open spec fn warning_message_view(external: Seq<Seq<char>>) -> Seq<char> {
    if external.len() == 0 {
        warning_header_view()
    } else {
        warning_header_view() + bullets(display_list(external))
    }
}

#[verifier::loop_isolation(false)]
pub fn format_warning_message(external_paths: &[String]) -> (r: String)
    ensures
        r@ == warning_message_view(seq_views(external_paths@)),
{
    let mut message =
        "Working tree changed outside this session since last turn. If this was intentional, tell Codex what changed.".to_owned();
    if external_paths.len() == 0 {
        return message;
    }
    let mut display: Vec<String> = Vec::new();
    let mut i: usize = 0;
    proof {
        assert(seq_views(external_paths@).take(0) =~= Seq::<Seq<char>>::empty());
        assert(seq_views(display@) =~= seq_views(external_paths@).take(0));
    }
    while i < external_paths.len()
        invariant
            i <= external_paths@.len(),
            seq_views(display@) == seq_views(external_paths@).take(i as int),
        decreases external_paths@.len() - i,
    {
        display.push(external_paths[i].clone());
        proof {
            assert(seq_views(display@) =~= seq_views(external_paths@).take(i + 1));
        }
        i = i + 1;
    }
    proof {
        assert(seq_views(external_paths@).take(external_paths@.len() as int) =~= seq_views(
            external_paths@,
        ));
    }
    sort_strings(&mut display);
    let ghost sorted = sorted_views(seq_views(external_paths@));
    if display.len() > MAX_FILES {
        display.truncate(MAX_FILES);
        proof {
            assert(seq_views(display@) =~= sorted.take(MAX_FILES as int));
        }
        let _dropped = display.remove(MAX_FILES - 1);
        display.push(String::from_str("..."));
        proof {
            assert(seq_views(display@) =~= sorted.take(MAX_FILES as int).update(
                MAX_FILES as int - 1,
                "..."@,
            ));
        }
    }
    let ghost dviews = display_list(seq_views(external_paths@));
    proof {
        assert(seq_views(display@) == dviews);
    }
    let mut j: usize = 0;
    proof {
        assert(dviews.take(0) =~= Seq::<Seq<char>>::empty());
        assert(message@ == warning_header_view() + bullets(dviews.take(0)));
    }
    while j < display.len()
        invariant
            j <= display@.len(),
            seq_views(display@) == dviews,
            message@ == warning_header_view() + bullets(dviews.take(j as int)),
        decreases display@.len() - j,
    {
        message.append("\n- ");
        message.append(display[j].as_str());
        proof {
            assert(dviews.take(j + 1).drop_last() =~= dviews.take(j as int));
            assert(dviews.take(j + 1).last() == dviews[j as int]);
            assert(message@ =~= warning_header_view() + bullets(dviews.take(j + 1)));
        }
        j = j + 1;
    }
    proof {
        assert(dviews.take(dviews.len() as int) =~= dviews);
    }
    message
}

} // verus!
