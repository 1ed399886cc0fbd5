//! Patching the editor's script.
//!
//! The script is somebody else's text, and its format is not known. It is
//! touched in one way only: a marker that the unpatched script holds is
//! replaced, wherever it stands, by a text that is fixed for the platform.
//! A script without the marker is left as it is.

use crate::paths::Platform;
use vstd::prelude::*;
use vstd::string::*;

verus! {

/// Whether `pattern` stands in `text` at position `i`.
pub open spec fn occurs_at(text: Seq<char>, pattern: Seq<char>, i: int) -> bool {
    &&& 0 <= i
    &&& i + pattern.len() <= text.len()
    &&& text.subrange(i, i + pattern.len()) == pattern
}

/// Whether `pattern` stands somewhere in `text`.
pub open spec fn occurs(text: Seq<char>, pattern: Seq<char>) -> bool {
    exists|i: int| occurs_at(text, pattern, i)
}

/// `text` with `to` in the place of `from`, wherever `from` stands: the text
/// is read from the left, and reading goes on behind each `from` that was
/// found. With an empty `from` nothing is replaced.
pub open spec fn replaced(text: Seq<char>, from: Seq<char>, to: Seq<char>) -> Seq<char>
    decreases text.len(),
{
    if from.len() == 0 || text.len() < from.len() {
        text
    } else if occurs_at(text, from, 0) {
        to + replaced(text.subrange(from.len() as int, text.len() as int), from, to)
    } else {
        seq![text[0]] + replaced(text.subrange(1, text.len() as int), from, to)
    }
}

/// An occurrence in the rest of a text is an occurrence in the text.
proof fn lemma_occurs_at_shift(text: Seq<char>, pattern: Seq<char>, start: int, i: int)
    requires
        0 <= start <= text.len(),
        0 <= i,
    ensures
        occurs_at(text.subrange(start, text.len() as int), pattern, i) <==> occurs_at(text, pattern, start + i),
{
    let rest = text.subrange(start, text.len() as int);
    if i + pattern.len() <= rest.len() {
        assert(rest.subrange(i, i + pattern.len()) =~= text.subrange(start + i, start + i + pattern.len()));
    }
}

/// A text in which `from` does not stand is its own replacement.
pub proof fn lemma_replaced_without_marker(text: Seq<char>, from: Seq<char>, to: Seq<char>)
    requires
        !occurs(text, from),
    ensures
        replaced(text, from, to) == text,
    decreases text.len(),
{
    if !(from.len() == 0 || text.len() < from.len()) {
        assert(!occurs_at(text, from, 0));
        let rest = text.subrange(1, text.len() as int);
        assert forall|i: int| !occurs_at(rest, from, i) by {
            if 0 <= i {
                lemma_occurs_at_shift(text, from, 1, i);
            }
        }
        lemma_replaced_without_marker(rest, from, to);
        assert(seq![text[0]] + rest =~= text);
    }
}

/// Up to the first place at which `from` stands the text stays, there `to`
/// stands in its place, and behind it the rest is replaced in the same way.
pub proof fn lemma_replaced_at_first(text: Seq<char>, from: Seq<char>, to: Seq<char>, first: int)
    requires
        from.len() > 0,
        occurs_at(text, from, first),
        forall|i: int| 0 <= i < first ==> !occurs_at(text, from, i),
    ensures
        replaced(text, from, to) == text.subrange(0, first) + to + replaced(
            text.subrange(first + from.len(), text.len() as int),
            from,
            to,
        ),
    decreases first,
{
    if first == 0 {
        assert(text.subrange(0, 0) + to =~= to);
    } else {
        let rest = text.subrange(1, text.len() as int);
        lemma_occurs_at_shift(text, from, 1, first - 1);
        assert forall|i: int| 0 <= i < first - 1 implies !occurs_at(rest, from, i) by {
            lemma_occurs_at_shift(text, from, 1, i);
        }
        lemma_replaced_at_first(rest, from, to, first - 1);
        assert(rest.subrange(first - 1 + from.len(), rest.len() as int) =~= text.subrange(
            first + from.len(),
            text.len() as int,
        ));
        assert(seq![text[0]] + rest.subrange(0, first - 1) =~= text.subrange(0, first));
        assert(seq![text[0]] + (rest.subrange(0, first - 1) + to + replaced(
            text.subrange(first + from.len(), text.len() as int),
            from,
            to,
        )) =~= text.subrange(0, first) + to + replaced(
            text.subrange(first + from.len(), text.len() as int),
            from,
            to,
        ));
    }
}

/// Where `from` stands in a text, `to` stands in its replacement.
pub proof fn lemma_replaced_holds_replacement(text: Seq<char>, from: Seq<char>, to: Seq<char>)
    requires
        from.len() > 0,
        occurs(text, from),
    ensures
        occurs(replaced(text, from, to), to),
    decreases text.len(),
{
    let out = replaced(text, from, to);
    if occurs_at(text, from, 0) {
        assert(out.subrange(0, to.len() as int) =~= to);
        assert(occurs_at(out, to, 0));
    } else {
        let at = choose|i: int| occurs_at(text, from, i);
        let rest = text.subrange(1, text.len() as int);
        lemma_occurs_at_shift(text, from, 1, at - 1);
        assert(occurs_at(rest, from, at - 1));
        lemma_replaced_holds_replacement(rest, from, to);
        let inner = replaced(rest, from, to);
        let j = choose|j: int| occurs_at(inner, to, j);
        assert(out.subrange(j + 1, j + 1 + to.len()) =~= inner.subrange(j, j + to.len()));
        assert(occurs_at(out, to, j + 1));
    }
}

/// Whether `from`, laid over `to` with its beginning `d` places behind the
/// beginning of `to`, differs from `to` at its own place `j`.
pub open spec fn clash_at(from: Seq<char>, to: Seq<char>, d: int, j: int) -> bool {
    &&& 0 <= j < from.len()
    &&& 0 <= d + j < to.len()
    &&& from[j] != to[d + j]
}

/// Whether `from`, laid over `to` with its beginning `d` places behind the
/// beginning of `to`, differs from `to` somewhere where both are.
pub open spec fn clashes_laid(from: Seq<char>, to: Seq<char>, d: int) -> bool {
    exists|j: int| clash_at(from, to, d, j)
}

/// Whether `from` cannot lie over any part of `to`: however the one is laid
/// over the other, they differ somewhere where both are. Then no `from` can
/// begin, end or lie within a `to`, whatever stands around it.
pub open spec fn clashes(from: Seq<char>, to: Seq<char>) -> bool {
    forall|d: int| -from.len() < d < to.len() ==> #[trigger] clashes_laid(from, to, d)
}

/// The first place at which `from` stands, given one place at which it does.
proof fn lemma_first_occurrence(text: Seq<char>, from: Seq<char>, at: int) -> (first: int)
    requires
        occurs_at(text, from, at),
    ensures
        occurs_at(text, from, first),
        forall|i: int| 0 <= i < first ==> !occurs_at(text, from, i),
    decreases at,
{
    if exists|i: int| 0 <= i < at && occurs_at(text, from, i) {
        let earlier = choose|i: int| 0 <= i < at && occurs_at(text, from, i);
        lemma_first_occurrence(text, from, earlier)
    } else {
        at
    }
}

/// Where `from` cannot lie over any part of `to`, replacing leaves no `from`:
/// in the replacement of a text `from` stands nowhere.
pub proof fn lemma_replaced_holds_no_marker(text: Seq<char>, from: Seq<char>, to: Seq<char>)
    requires
        from.len() > 0,
        to.len() > 0,
        clashes(from, to),
    ensures
        !occurs(replaced(text, from, to), from),
    decreases text.len(),
{
    let out = replaced(text, from, to);
    if !occurs(text, from) {
        lemma_replaced_without_marker(text, from, to);
    } else {
        let somewhere = choose|i: int| occurs_at(text, from, i);
        let first = lemma_first_occurrence(text, from, somewhere);
        let kept = text.subrange(0, first);
        let tail = text.subrange(first + from.len(), text.len() as int);
        let rest = replaced(tail, from, to);
        lemma_replaced_at_first(text, from, to, first);
        lemma_replaced_holds_no_marker(tail, from, to);
        assert(out == kept + to + rest);
        assert forall|p: int| !occurs_at(out, from, p) by {
            if occurs_at(out, from, p) {
                let found = out.subrange(p, p + from.len());
                if p + from.len() <= first {
                    assert(text.subrange(p, p + from.len()) =~= found);
                    assert(occurs_at(text, from, p));
                } else if p >= first + to.len() {
                    let q = p - first - to.len();
                    assert(rest.subrange(q, q + from.len()) =~= found);
                    assert(occurs_at(rest, from, q));
                } else {
                    let d = p - first;
                    assert(clashes_laid(from, to, d));
                    let j = choose|j: int| clash_at(from, to, d, j);
                    assert(found[j] == out[p + j]);
                    assert(out[p + j] == to[d + j]);
                }
            }
        }
    }
}

/// How often `pattern` stands in `text`, every place counted.
pub open spec fn occurrences(text: Seq<char>, pattern: Seq<char>) -> nat
    decreases text.len(),
{
    if text.len() == 0 || text.len() < pattern.len() {
        0
    } else {
        occurrences(text.subrange(1, text.len() as int), pattern) + if occurs_at(text, pattern, 0) {
            1nat
        } else {
            0nat
        }
    }
}

/// How often replacing puts a `to` in: the number of `from` that are found
/// when the text is read from the left and reading goes on behind each.
pub open spec fn replacements(text: Seq<char>, from: Seq<char>) -> nat
    decreases text.len(),
{
    if from.len() == 0 || text.len() < from.len() {
        0
    } else if occurs_at(text, from, 0) {
        1 + replacements(text.subrange(from.len() as int, text.len() as int), from)
    } else {
        replacements(text.subrange(1, text.len() as int), from)
    }
}

/// Whether `pattern` cannot lie over itself but in its own place.
pub open spec fn clashes_apart(pattern: Seq<char>) -> bool {
    forall|d: int| -pattern.len() < d < pattern.len() && d != 0 ==> #[trigger] clashes_laid(pattern, pattern, d)
}

/// The count of a text is the count of its first place and of the rest.
proof fn lemma_occurrences_step(text: Seq<char>, pattern: Seq<char>)
    requires
        text.len() > 0,
        pattern.len() > 0,
    ensures
        occurrences(text, pattern) == occurrences(text.subrange(1, text.len() as int), pattern) + if occurs_at(
            text,
            pattern,
            0,
        ) {
            1nat
        } else {
            0nat
        },
{
    if text.len() < pattern.len() {
        let rest = text.subrange(1, text.len() as int);
        assert(occurrences(rest, pattern) == 0);
    }
}

/// Places at which the pattern does not stand do not count: where it stands
/// at none of the first `k` places, the count is that of the rest.
proof fn lemma_occurrences_skip(text: Seq<char>, pattern: Seq<char>, k: int)
    requires
        pattern.len() > 0,
        0 <= k <= text.len(),
        forall|p: int| 0 <= p < k ==> !occurs_at(text, pattern, p),
    ensures
        occurrences(text, pattern) == occurrences(text.subrange(k, text.len() as int), pattern),
    decreases k,
{
    if k == 0 {
        assert(text.subrange(0, text.len() as int) =~= text);
    } else {
        let rest = text.subrange(1, text.len() as int);
        lemma_occurrences_step(text, pattern);
        assert forall|p: int| 0 <= p < k - 1 implies !occurs_at(rest, pattern, p) by {
            lemma_occurs_at_shift(text, pattern, 1, p);
        }
        lemma_occurrences_skip(rest, pattern, k - 1);
        assert(rest.subrange(k - 1, rest.len() as int) =~= text.subrange(k, text.len() as int));
    }
}

/// A pattern that stands at the beginning and nowhere else among the first
/// `k` places counts once more than the rest behind them.
proof fn lemma_occurrences_first(text: Seq<char>, pattern: Seq<char>, k: int)
    requires
        pattern.len() > 0,
        1 <= k <= text.len(),
        occurs_at(text, pattern, 0),
        forall|p: int| 1 <= p < k ==> !occurs_at(text, pattern, p),
    ensures
        occurrences(text, pattern) == 1 + occurrences(text.subrange(k, text.len() as int), pattern),
{
    let rest = text.subrange(1, text.len() as int);
    lemma_occurrences_step(text, pattern);
    assert forall|p: int| 0 <= p < k - 1 implies !occurs_at(rest, pattern, p) by {
        lemma_occurs_at_shift(text, pattern, 1, p);
    }
    lemma_occurrences_skip(rest, pattern, k - 1);
    assert(rest.subrange(k - 1, rest.len() as int) =~= text.subrange(k, text.len() as int));
}

/// Two patterns that clash cannot stand over one another in a text: where
/// `under` stands at `q`, `over` stands at no place from which it would
/// reach into it.
proof fn lemma_clash_keeps_apart(text: Seq<char>, over: Seq<char>, under: Seq<char>, p: int, q: int)
    requires
        occurs_at(text, under, q),
        -over.len() < p - q < under.len(),
        clashes_laid(over, under, p - q),
    ensures
        !occurs_at(text, over, p),
{
    if occurs_at(text, over, p) {
        let d = p - q;
        let j = choose|j: int| clash_at(over, under, d, j);
        assert(text.subrange(p, p + over.len())[j] == text[p + j]);
        assert(text.subrange(q, q + under.len())[d + j] == text[q + d + j]);
    }
}

/// Replacing adds one `to` for each `from` it replaces, and no other: where
/// `to` cannot lie over itself but in its own place, and cannot lie over any
/// part of `from`, the replacement of a text holds `to` as often as the
/// text did, and once more for each `from` that was replaced.
pub proof fn lemma_replaced_counts(text: Seq<char>, from: Seq<char>, to: Seq<char>)
    requires
        from.len() > 0,
        to.len() > 0,
        clashes_apart(to),
        clashes(to, from),
    ensures
        occurrences(replaced(text, from, to), to) == occurrences(text, to) + replacements(text, from),
    decreases text.len(),
{
    let out = replaced(text, from, to);
    let m = from.len() as int;
    let t = to.len() as int;
    if text.len() < from.len() {
    } else if occurs_at(text, from, 0) {
        let tail = text.subrange(m, text.len() as int);
        let behind = replaced(tail, from, to);
        lemma_replaced_counts(tail, from, to);
        assert(out == to + behind);
        assert(out.subrange(0, t) =~= to);
        assert(occurs_at(out, to, 0));
        assert forall|p: int| 1 <= p < t implies !occurs_at(out, to, p) by {
            assert(clashes_laid(to, to, p));
            lemma_clash_keeps_apart(out, to, to, p, 0);
        }
        lemma_occurrences_first(out, to, t);
        assert(out.subrange(t, out.len() as int) =~= behind);
        assert forall|p: int| 0 <= p < m implies !occurs_at(text, to, p) by {
            assert(clashes_laid(to, from, p));
            lemma_clash_keeps_apart(text, to, from, p, 0);
        }
        lemma_occurrences_skip(text, to, m);
    } else {
        let rest = text.subrange(1, text.len() as int);
        let behind = replaced(rest, from, to);
        lemma_replaced_counts(rest, from, to);
        assert(out == seq![text[0]] + behind);
        assert(out.subrange(1, out.len() as int) =~= behind);
        lemma_occurrences_step(out, to);
        lemma_occurrences_step(text, to);
        if !occurs(text, from) {
            lemma_replaced_without_marker(text, from, to);
        } else {
            let somewhere = choose|i: int| occurs_at(text, from, i);
            let first = lemma_first_occurrence(text, from, somewhere);
            lemma_replaced_at_first(text, from, to, first);
            let kept = text.subrange(0, first);
            let tail = replaced(text.subrange(first + m, text.len() as int), from, to);
            assert(out == kept + to + tail);
            if first >= t {
                assert(out.subrange(0, t) =~= text.subrange(0, t));
            } else {
                assert(clashes_laid(to, from, -first));
                lemma_clash_keeps_apart(text, to, from, 0, first);
                assert(out.subrange(first, first + t) =~= to);
                assert(occurs_at(out, to, first));
                assert(clashes_laid(to, to, -first));
                lemma_clash_keeps_apart(out, to, to, 0, first);
            }
        }
    }
}

/// Where `from` cannot lie over itself but in its own place, every `from`
/// in a text is replaced: the `from` that replacing finds are all there are.
pub proof fn lemma_replacements_are_occurrences(text: Seq<char>, from: Seq<char>)
    requires
        from.len() > 0,
        clashes_apart(from),
    ensures
        replacements(text, from) == occurrences(text, from),
    decreases text.len(),
{
    let m = from.len() as int;
    if text.len() < from.len() {
    } else if occurs_at(text, from, 0) {
        let tail = text.subrange(m, text.len() as int);
        lemma_replacements_are_occurrences(tail, from);
        assert forall|p: int| 1 <= p < m implies !occurs_at(text, from, p) by {
            assert(clashes_laid(from, from, p));
            lemma_clash_keeps_apart(text, from, from, p, 0);
        }
        lemma_occurrences_first(text, from, m);
    } else {
        lemma_replacements_are_occurrences(text.subrange(1, text.len() as int), from);
        lemma_occurrences_step(text, from);
    }
}

/// The characters of a text, one by one.
fn characters(text: &str) -> (r: Vec<char>)
    ensures
        r@ == text@,
{
    let mut out: Vec<char> = Vec::new();
    for c in it: text.chars()
        invariant
            out@ == it.seq().take(it.index()),
            it.seq() == text@,
    {
        out.push(c);
    }
    out
}

/// Whether `pattern` stands in `text` at position `at`.
fn stands_at(text: &Vec<char>, pattern: &Vec<char>, at: usize) -> (r: bool)
    requires
        at + pattern.len() <= text.len(),
    ensures
        r == occurs_at(text@, pattern@, at as int),
{
    let mut k: usize = 0;
    while k < pattern.len()
        invariant
            k <= pattern.len(),
            at + pattern.len() <= text.len(),
            forall|j: int| 0 <= j < k ==> text@[at + j] == pattern@[j],
        decreases pattern.len() - k,
    {
        if text[at + k] != pattern[k] {
            assert(text@.subrange(at as int, at + pattern.len())[k as int] != pattern@[k as int]);
            return false;
        }
        k += 1;
    }
    assert(text@.subrange(at as int, at + pattern.len()) =~= pattern@);
    true
}

/// The first place at or behind `start` at which `pattern` stands.
fn find_from(text: &Vec<char>, pattern: &Vec<char>, start: usize) -> (r: Option<usize>)
    requires
        start <= text.len(),
    ensures
        match r {
            Some(at) => {
                &&& start <= at
                &&& occurs_at(text@, pattern@, at as int)
                &&& forall|i: int| start <= i < at ==> !occurs_at(text@, pattern@, i)
            },
            None => forall|i: int| start <= i ==> !occurs_at(text@, pattern@, i),
        },
{
    if pattern.len() == 0 {
        assert(text@.subrange(start as int, start as int) =~= pattern@);
        return Some(start);
    }
    let mut at: usize = start;
    while at < text.len() && text.len() - at >= pattern.len()
        invariant
            start <= at <= text.len(),
            pattern.len() > 0,
            forall|i: int| start <= i < at ==> !occurs_at(text@, pattern@, i),
        decreases text.len() - at,
    {
        if stands_at(text, pattern, at) {
            return Some(at);
        }
        at += 1;
    }
    None
}

/// Tells whether `pattern` stands somewhere in `text`.
pub fn contains(text: &str, pattern: &str) -> (r: bool)
    ensures
        r == occurs(text@, pattern@),
{
    let chars = characters(text);
    let wanted = characters(pattern);
    find_from(&chars, &wanted, 0).is_some()
}

/// Replaces `from` by `to` wherever it stands in `text`.
pub fn replace_all(text: &str, from: &str, to: &str) -> (r: String)
    ensures
        r@ == replaced(text@, from@, to@),
{
    let chars = characters(text);
    let wanted = characters(from);
    if wanted.len() == 0 {
        return text.to_owned();
    }
    let n = chars.len();
    let mut out = String::new();
    let mut pos: usize = 0;
    assert(text@.subrange(0, n as int) =~= text@);
    loop
        invariant_except_break
            pos <= n,
            out@ + replaced(text@.subrange(pos as int, n as int), from@, to@) == replaced(text@, from@, to@),
        invariant
            n == text@.len(),
            chars@ == text@,
            wanted@ == from@,
            from@.len() > 0,
        ensures
            out@ == replaced(text@, from@, to@),
        decreases n - pos,
    {
        let ghost rest = text@.subrange(pos as int, n as int);
        let ghost before = out@;
        match find_from(&chars, &wanted, pos) {
            Some(at) => {
                proof {
                    lemma_occurs_at_shift(text@, from@, pos as int, at - pos);
                    assert forall|i: int| 0 <= i < at - pos implies !occurs_at(rest, from@, i) by {
                        lemma_occurs_at_shift(text@, from@, pos as int, i);
                    }
                    lemma_replaced_at_first(rest, from@, to@, at - pos);
                    assert(rest.subrange(0, at - pos) =~= text@.subrange(pos as int, at as int));
                    assert(rest.subrange(at - pos + from@.len(), rest.len() as int) =~= text@.subrange(
                        at + from@.len(),
                        n as int,
                    ));
                }
                out.append(text.substring_char(pos, at));
                out.append(to);
                pos = at + wanted.len();
                assert(out@ + replaced(text@.subrange(pos as int, n as int), from@, to@) =~= before + replaced(
                    rest,
                    from@,
                    to@,
                ));
            },
            None => {
                proof {
                    assert forall|i: int| !occurs_at(rest, from@, i) by {
                        if 0 <= i {
                            lemma_occurs_at_shift(text@, from@, pos as int, i);
                        }
                    }
                    lemma_replaced_without_marker(rest, from@, to@);
                }
                out.append(text.substring_char(pos, n));
                break ;
            },
        }
    }
    out
}

/// A marker of the unpatched script and the text that takes its place.
#[derive(Debug, Clone, Copy, PartialEq, Eq)]
pub struct MarkerPair {
    pub source: &'static str,
    pub replacement: &'static str,
}

/// The marker that the platform's unpatched script holds, where the platform
/// has a script to patch.
pub open spec fn source_marker(platform: Platform) -> Option<Seq<char>> {
    match platform {
        Platform::MacOs => Some("ioreg -rd1 -c IOPlatformExpertDevice"@),
        Platform::Windows => Some(
            "${v5[s$()]}\\REG.exe QUERY HKEY_LOCAL_MACHINE\\SOFTWARE\\Microsoft\\Cryptography /v MachineGuid"@,
        ),
        _ => None,
    }
}

/// The text that takes the marker's place on the platform.
pub open spec fn replacement_marker(platform: Platform) -> Option<Seq<char>> {
    match platform {
        Platform::MacOs => Some(
            "UUID=$(uuidgen | tr '[:upper:]' '[:lower:]');echo \\\"IOPlatformUUID = \\\"$UUID\\\";"@,
        ),
        Platform::Windows => Some("powershell -Command \"[guid]::NewGuid().ToString().ToLower()\""@),
        _ => None,
    }
}

/// The one pair of marker and replacement that is in force on the platform.
pub fn marker_pair(platform: Platform) -> (r: Option<MarkerPair>)
    ensures
        match r {
            Some(pair) => source_marker(platform) == Some(pair.source@) && replacement_marker(platform) == Some(
                pair.replacement@,
            ),
            None => source_marker(platform) is None && replacement_marker(platform) is None,
        },
{
    match platform {
        Platform::MacOs => Some(
            MarkerPair {
                source: "ioreg -rd1 -c IOPlatformExpertDevice",
                replacement: "UUID=$(uuidgen | tr '[:upper:]' '[:lower:]');echo \\\"IOPlatformUUID = \\\"$UUID\\\";",
            },
        ),
        Platform::Windows => Some(
            MarkerPair {
                source: "${v5[s$()]}\\REG.exe QUERY HKEY_LOCAL_MACHINE\\SOFTWARE\\Microsoft\\Cryptography /v MachineGuid",
                replacement: "powershell -Command \"[guid]::NewGuid().ToString().ToLower()\"",
            },
        ),
        _ => None,
    }
}

/// What patching made of a script.
#[derive(Debug, Clone, PartialEq, Eq)]
pub struct PatchOutcome {
    /// The script as it is to be written back.
    pub content: String,
    /// Whether the replacement stands in it.
    pub applied: bool,
}

/// The patched script and whether the replacement stands in it; `None` on a
/// platform without a marker.
pub open spec fn patched(platform: Platform, content: Seq<char>) -> Option<(Seq<char>, bool)> {
    match (source_marker(platform), replacement_marker(platform)) {
        (Some(source), Some(replacement)) => {
            let text = replaced(content, source, replacement);
            Some((text, occurs(text, replacement)))
        },
        _ => None,
    }
}

/// Patches the text of the script.
///
/// On a platform without a marker there is nothing to do, and the answer is
/// `None`. Otherwise the marker is replaced wherever it stands, and the
/// outcome tells whether the replacement stands in the result. It does not
/// where the script held neither marker nor replacement: the script is then
/// unchanged, and that is no failure.
pub fn update_main_js(platform: Platform, content: &str) -> (r: Option<PatchOutcome>)
    ensures
        match r {
            Some(outcome) => patched(platform, content@) == Some((outcome.content@, outcome.applied)),
            None => patched(platform, content@) is None,
        },
{
    match marker_pair(platform) {
        Some(pair) => {
            let text = replace_all(content, pair.source, pair.replacement);
            let applied = contains(text.as_str(), pair.replacement);
            Some(PatchOutcome { content: text, applied })
        },
        None => None,
    }
}

/// The marker of each platform cannot lie over any part of its replacement.
proof fn lemma_markers_clash(platform: Platform)
    ensures
        source_marker(platform) matches Some(source) ==> source.len() > 0 && replacement_marker(platform)->0.len()
            > 0 && clashes(source, replacement_marker(platform)->0),
{
    reveal_strlit("ioreg -rd1 -c IOPlatformExpertDevice");
    reveal_strlit("UUID=$(uuidgen | tr '[:upper:]' '[:lower:]');echo \\\"IOPlatformUUID = \\\"$UUID\\\";");
    reveal_strlit(
        "${v5[s$()]}\\REG.exe QUERY HKEY_LOCAL_MACHINE\\SOFTWARE\\Microsoft\\Cryptography /v MachineGuid",
    );
    reveal_strlit("powershell -Command \"[guid]::NewGuid().ToString().ToLower()\"");
    if source_marker(platform) is Some {
        let from = source_marker(platform)->0;
        let to = replacement_marker(platform)->0;
        assert forall|d: int| -from.len() < d < to.len() implies #[trigger] clashes_laid(from, to, d) by {
            let begin = if d < 0 {
                -d
            } else {
                0
            };
            if from[begin] != to[d + begin] {
                assert(clash_at(from, to, d, begin));
            } else {
                assert(clash_at(from, to, d, begin + 1));
            }
        }
    }
}

/// Whether `over` and `under`, laid with offset `d`, differ at one of the
/// first five places at which both are.
spec fn clash_near(over: Seq<char>, under: Seq<char>, d: int) -> bool {
    let begin = if d < 0 {
        -d
    } else {
        0
    };
    clash_at(over, under, d, begin) || clash_at(over, under, d, begin + 1) || clash_at(over, under, d, begin + 2)
        || clash_at(over, under, d, begin + 3) || clash_at(over, under, d, begin + 4)
}

/// The replacement of each platform cannot lie over itself but in its own
/// place, and cannot lie over any part of the marker; nor can the marker
/// lie over itself but in its own place.
proof fn lemma_markers_keep_apart(platform: Platform)
    ensures
        source_marker(platform) matches Some(source) ==> {
            &&& clashes_apart(replacement_marker(platform)->0)
            &&& clashes(replacement_marker(platform)->0, source)
            &&& clashes_apart(source)
        },
{
    reveal_strlit("ioreg -rd1 -c IOPlatformExpertDevice");
    reveal_strlit("UUID=$(uuidgen | tr '[:upper:]' '[:lower:]');echo \\\"IOPlatformUUID = \\\"$UUID\\\";");
    reveal_strlit(
        "${v5[s$()]}\\REG.exe QUERY HKEY_LOCAL_MACHINE\\SOFTWARE\\Microsoft\\Cryptography /v MachineGuid",
    );
    reveal_strlit("powershell -Command \"[guid]::NewGuid().ToString().ToLower()\"");
    if source_marker(platform) is Some {
        let from = source_marker(platform)->0;
        let to = replacement_marker(platform)->0;
        assert forall|d: int| -to.len() < d < to.len() && d != 0 implies #[trigger] clashes_laid(to, to, d) by {
            assert(clash_near(to, to, d));
        }
        assert forall|d: int| -to.len() < d < from.len() implies #[trigger] clashes_laid(to, from, d) by {
            assert(clash_near(to, from, d));
        }
        assert forall|d: int| -from.len() < d < from.len() && d != 0 implies #[trigger] clashes_laid(
            from,
            from,
            d,
        ) by {
            assert(clash_near(from, from, d));
        }
    }
}

/// Patching puts the replacement in once for each marker, and nowhere else:
/// a patched script holds the platform's replacement as often as the script
/// did before, and once more for each marker that the script held.
pub proof fn lemma_patch_counts(platform: Platform, content: Seq<char>)
    ensures
        patched(platform, content) matches Some((text, applied)) ==> occurrences(
            text,
            replacement_marker(platform)->0,
        ) == occurrences(content, replacement_marker(platform)->0) + occurrences(
            content,
            source_marker(platform)->0,
        ),
{
    lemma_markers_clash(platform);
    lemma_markers_keep_apart(platform);
    if source_marker(platform) is Some {
        lemma_replaced_counts(content, source_marker(platform)->0, replacement_marker(platform)->0);
        lemma_replacements_are_occurrences(content, source_marker(platform)->0);
    }
}

/// Patching removes the marker: in a patched script the platform's marker
/// stands nowhere, however often and wherever it stood before.
pub proof fn lemma_patch_removes_marker(platform: Platform, content: Seq<char>)
    ensures
        patched(platform, content) matches Some((text, applied)) ==> !occurs(text, source_marker(platform)->0),
{
    lemma_markers_clash(platform);
    if source_marker(platform) is Some {
        lemma_replaced_holds_no_marker(content, source_marker(platform)->0, replacement_marker(platform)->0);
    }
}

/// A script that holds the platform's marker is patched with success: the
/// replacement stands in the result, which is the script with every marker
/// replaced.
pub proof fn lemma_patch_lands(platform: Platform, content: Seq<char>)
    requires
        source_marker(platform) matches Some(source) && occurs(content, source),
    ensures
        patched(platform, content) == Some(
            (replaced(content, source_marker(platform)->0, replacement_marker(platform)->0), true),
        ),
{
    lemma_markers_clash(platform);
    lemma_replaced_holds_replacement(content, source_marker(platform)->0, replacement_marker(platform)->0);
}

/// A script that holds neither the platform's marker nor its replacement is
/// left as it is, and the patch is told as not applied.
pub proof fn lemma_patch_leaves_other_scripts(platform: Platform, content: Seq<char>)
    requires
        source_marker(platform) matches Some(source) && !occurs(content, source),
        replacement_marker(platform) matches Some(replacement) && !occurs(content, replacement),
    ensures
        patched(platform, content) == Some((content, false)),
{
    lemma_replaced_without_marker(content, source_marker(platform)->0, replacement_marker(platform)->0);
}

} // verus!
