//! Safety heuristics shared by multi-exec and the macro recorder.
//!
//! These are guard rails, not security guarantees: they reduce the chance of a
//! catastrophic fan-out command, or of accidentally recording a secret into a
//! macro. Conservative and easy to extend with more patterns.

use vstd::prelude::*;
use vstd::string::*;

use crate::pattern;
use crate::pattern::Pattern;

verus! {

/// A flagged command pattern and why it is risky.
#[derive(Debug, PartialEq, Eq)]
pub struct DangerWarning {
    pub matched: String,
    pub reason: String,
}

impl Clone for DangerWarning {
    fn clone(&self) -> (r: Self)
        ensures
            r == *self,
    {
        DangerWarning { matched: self.matched.clone(), reason: self.reason.clone() }
    }
}

/// A warning as characters: what matched, and why it is risky.
pub struct WarningModel {
    pub matched: Seq<char>,
    pub reason: Seq<char>,
}

impl View for DangerWarning {
    type V = WarningModel;

    open spec fn view(&self) -> WarningModel {
        WarningModel { matched: self.matched@, reason: self.reason@ }
    }
}

/// Warnings as characters.
pub open spec fn warning_views(warnings: Seq<DangerWarning>) -> Seq<WarningModel> {
    Seq::new(warnings.len(), |i: int| warnings[i]@)
}

/// The dangerous patterns, each with the reason why it is risky.
pub open spec fn danger_table() -> Seq<(Seq<char>, Seq<char>)> {
    seq![
        (r"(?i)\brm\s+-[a-z]*r[a-z]*f"@, "recursive force delete"@),
        (r"(?i)\bmkfs\b"@, "filesystem format"@),
        (r"(?i)\bdd\b\s+if="@, "raw disk write"@),
        (r"(?i)\b(reboot|shutdown|poweroff|halt)\b"@, "power state change"@),
        (r"(?i)\bsystemctl\s+(restart|stop|disable)\b"@, "service disruption"@),
        (r":\(\)\s*\{.*\};\s*:"@, "fork bomb"@),
        (r"(?i)>\s*/dev/sd"@, "write to block device"@),
        (r"(?i)\bchmod\s+-R\s+777\b"@, "world-writable recursive chmod"@),
    ]
}

fn danger_patterns() -> (r: Vec<(&'static str, &'static str)>)
    ensures
        r@.len() == danger_table().len(),
        forall|i: int|
            0 <= i < r@.len() ==> ((#[trigger] r@[i]).0@, r@[i].1@) == danger_table()[i],
{
    vec![
        (r"(?i)\brm\s+-[a-z]*r[a-z]*f", "recursive force delete"),
        (r"(?i)\bmkfs\b", "filesystem format"),
        (r"(?i)\bdd\b\s+if=", "raw disk write"),
        (r"(?i)\b(reboot|shutdown|poweroff|halt)\b", "power state change"),
        (r"(?i)\bsystemctl\s+(restart|stop|disable)\b", "service disruption"),
        (r":\(\)\s*\{.*\};\s*:", "fork bomb"),
        (r"(?i)>\s*/dev/sd", "write to block device"),
        (r"(?i)\bchmod\s+-R\s+777\b", "world-writable recursive chmod"),
    ]
}

/// The first match of a pattern in a text. A pattern that does not compile
/// matches nothing.
pub open spec fn hit_of(pattern: Seq<char>, text: Seq<char>) -> Option<Seq<char>> {
    if pattern::error_in(pattern) is None {
        pattern::first_match(pattern, text)
    } else {
        None
    }
}

/// The first match of each dangerous pattern in a command.
pub open spec fn hits_on(command: Seq<char>) -> Seq<Option<Seq<char>>> {
    Seq::new(danger_table().len(), |i: int| hit_of(danger_table()[i].0, command))
}

/// The warnings for these first matches of the patterns of a table: one for each
/// pattern that matches, in the order of the table.
pub open spec fn warnings_of(
    table: Seq<(Seq<char>, Seq<char>)>,
    hits: Seq<Option<Seq<char>>>,
) -> Seq<WarningModel>
    decreases table.len(),
{
    if table.len() == 0 {
        Seq::empty()
    } else {
        let earlier = warnings_of(table.drop_last(), hits.drop_last());
        match hits[table.len() - 1] {
            Some(matched) => earlier.push(WarningModel { matched, reason: table.last().1 }),
            None => earlier,
        }
    }
}

/// What matched, as characters.
pub open spec fn hit_texts(hits: Seq<Option<String>>) -> Seq<Option<Seq<char>>> {
    Seq::new(
        hits.len(),
        |i: int|
            match hits[i] {
                Some(found) => Some(found@),
                None => None,
            },
    )
}

/// The warnings for these first matches of the dangerous patterns.
pub fn warnings_from(hits: &Vec<Option<String>>) -> (r: Vec<DangerWarning>)
    requires
        hits@.len() == danger_table().len(),
    ensures
        warning_views(r@) == warnings_of(danger_table(), hit_texts(hits@)),
{
    let table = danger_patterns();
    let ghost model = danger_table();
    let ghost texts = hit_texts(hits@);
    let mut r: Vec<DangerWarning> = Vec::new();
    assert(warning_views(r@) =~= warnings_of(model.take(0), texts.take(0)));
    for k in 0..hits.len()
        invariant
            hits@.len() == model.len(),
            texts == hit_texts(hits@),
            table@.len() == model.len(),
            forall|i: int|
                0 <= i < table@.len() ==> ((#[trigger] table@[i]).0@, table@[i].1@) == model[i],
            warning_views(r@) == warnings_of(model.take(k as int), texts.take(k as int)),
    {
        let ghost before = r@;
        assert(model.take(k + 1).drop_last() =~= model.take(k as int));
        assert(texts.take(k + 1).drop_last() =~= texts.take(k as int));
        assert((table@[k as int].0@, table@[k as int].1@) == model[k as int]);
        if let Some(found) = &hits[k] {
            r.push(DangerWarning { matched: found.clone(), reason: table[k].1.to_string() });
            assert(warning_views(r@) =~= warning_views(before).push(
                WarningModel { matched: found@, reason: model[k as int].1 },
            ));
        }
    }
    assert(model.take(model.len() as int) =~= model);
    assert(texts.take(texts.len() as int) =~= texts);
    r
}

fn first_hit(pattern: &str, input: &str) -> (r: Option<String>)
    ensures
        match r {
            Some(found) => hit_of(pattern@, input@) == Some(found@) && pattern::quotes(
                input@,
                found@,
            ),
            None => hit_of(pattern@, input@) is None,
        },
{
    match Pattern::compile(pattern) {
        Ok(compiled) => {
            if compiled.is_match(input) {
                compiled.find(input)
            } else {
                None
            }
        },
        Err(_) => None,
    }
}

/// Whether a pattern with this first match, if it has one, is warned of for this
/// reason, and is not where it has none.
pub open spec fn warned(
    warnings: Seq<WarningModel>,
    hit: Option<Seq<char>>,
    reason: Seq<char>,
) -> bool {
    match hit {
        Some(matched) => exists|i: int|
            0 <= i < warnings.len() && #[trigger] warnings[i] == (WarningModel { matched, reason }),
        None => forall|i: int|
            0 <= i < warnings.len() ==> (#[trigger] warnings[i]).reason != reason,
    }
}

/// Whether there is a warning for this reason at all.
pub open spec fn known_reason(reason: Seq<char>) -> bool {
    ||| reason == "recursive force delete"@
    ||| reason == "filesystem format"@
    ||| reason == "raw disk write"@
    ||| reason == "power state change"@
    ||| reason == "service disruption"@
    ||| reason == "fork bomb"@
    ||| reason == "write to block device"@
    ||| reason == "world-writable recursive chmod"@
}

proof fn lemma_reasons_are_distinct()
    ensures
        forall|i: int, j: int|
            0 <= i < j < danger_table().len() ==> (#[trigger] danger_table()[i]).1 != (
            #[trigger] danger_table()[j]).1,
{
    reveal_strlit("recursive force delete");
    reveal_strlit("filesystem format");
    reveal_strlit("raw disk write");
    reveal_strlit("power state change");
    reveal_strlit("service disruption");
    reveal_strlit("fork bomb");
    reveal_strlit("write to block device");
    reveal_strlit("world-writable recursive chmod");
    let table = danger_table();
    assert(table[0].1.len() == 22);
    assert(table[1].1.len() == 17);
    assert(table[2].1.len() == 14);
    assert(table[3].1.len() == 18);
    assert(table[4].1.len() == 18);
    assert(table[5].1.len() == 9);
    assert(table[6].1.len() == 21);
    assert(table[7].1.len() == 30);
    assert(table[3].1[0] == 'p' && table[4].1[0] == 's');
}

proof fn lemma_warned(table: Seq<(Seq<char>, Seq<char>)>, hits: Seq<Option<Seq<char>>>, at: int)
    requires
        table.len() == hits.len(),
        0 <= at < table.len(),
        forall|i: int, j: int|
            0 <= i < j < table.len() ==> (#[trigger] table[i]).1 != (#[trigger] table[j]).1,
    ensures
        warned(warnings_of(table, hits), hits[at], table[at].1),
    decreases table.len(),
{
    let shorter = table.drop_last();
    let fewer = hits.drop_last();
    let earlier = warnings_of(shorter, fewer);
    let all = warnings_of(table, hits);
    assert forall|i: int, j: int| 0 <= i < j < shorter.len() implies (#[trigger] shorter[i]).1 != (
    #[trigger] shorter[j]).1 by {
        assert(table[i].1 != table[j].1);
    }
    if at < shorter.len() {
        lemma_warned(shorter, fewer, at);
        assert(table[at].1 != table[table.len() - 1].1);
        if let Some(matched) = hits[at] {
            let i = choose|i: int|
                0 <= i < earlier.len() && #[trigger] earlier[i] == (WarningModel {
                    matched,
                    reason: table[at].1,
                });
            assert(all[i] == earlier[i]);
        } else {
            assert forall|i: int| 0 <= i < all.len() implies (#[trigger] all[i]).reason
                != table[at].1 by {
                if i < earlier.len() {
                    assert(all[i] == earlier[i]);
                }
            }
        }
    } else if let Some(matched) = hits[at] {
        assert(all[earlier.len() as int] == (WarningModel { matched, reason: table[at].1 }));
    } else {
        assert forall|i: int| 0 <= i < all.len() implies (#[trigger] all[i]).reason
            != table[at].1 by {
            law_warnings_come_from_hits(shorter, fewer, i);
            let k = choose|k: int|
                {
                    &&& 0 <= k < shorter.len()
                    &&& fewer[k] == Some(earlier[i].matched)
                    &&& #[trigger] shorter[k].1 == earlier[i].reason
                };
            assert(table[k].1 != table[at].1);
        }
    }
}

proof fn lemma_warned_once(table: Seq<(Seq<char>, Seq<char>)>, hits: Seq<Option<Seq<char>>>)
    requires
        table.len() == hits.len(),
        forall|i: int, j: int|
            0 <= i < j < table.len() ==> (#[trigger] table[i]).1 != (#[trigger] table[j]).1,
    ensures
        forall|i: int, j: int|
            0 <= i < j < warnings_of(table, hits).len() ==> (#[trigger] warnings_of(
                table,
                hits,
            )[i]).reason != (#[trigger] warnings_of(table, hits)[j]).reason,
    decreases table.len(),
{
    if table.len() > 0 {
        let shorter = table.drop_last();
        let fewer = hits.drop_last();
        let earlier = warnings_of(shorter, fewer);
        let all = warnings_of(table, hits);
        assert forall|i: int, j: int| 0 <= i < j < shorter.len() implies (#[trigger] shorter[i]).1
            != (#[trigger] shorter[j]).1 by {
            assert(table[i].1 != table[j].1);
        }
        lemma_warned_once(shorter, fewer);
        assert forall|i: int, j: int| 0 <= i < j < all.len() implies (#[trigger] all[i]).reason != (
        #[trigger] all[j]).reason by {
            assert(all[i] == earlier[i]);
            if j < earlier.len() {
                assert(all[j] == earlier[j]);
            } else {
                law_warnings_come_from_hits(shorter, fewer, i);
                let k = choose|k: int|
                    {
                        &&& 0 <= k < shorter.len()
                        &&& fewer[k] == Some(earlier[i].matched)
                        &&& #[trigger] shorter[k].1 == earlier[i].reason
                    };
                assert(table[k].1 != table[table.len() - 1].1);
            }
        }
    }
}

/// Return warnings for any dangerous patterns found in `command`.
/// Used before broadcasting input to multiple sessions in multi-exec mode.
pub fn scan_dangerous(command: &str) -> (r: Vec<DangerWarning>)
    ensures
        warning_views(r@) == warnings_of(danger_table(), hits_on(command@)),
        forall|i: int|
            0 <= i < r@.len() ==> pattern::quotes(command@, (#[trigger] r@[i]).matched@),
        warned(
            warning_views(r@),
            hit_of(r"(?i)\brm\s+-[a-z]*r[a-z]*f"@, command@),
            "recursive force delete"@,
        ),
        warned(
            warning_views(r@),
            hit_of(r"(?i)\bmkfs\b"@, command@),
            "filesystem format"@,
        ),
        warned(
            warning_views(r@),
            hit_of(r"(?i)\bdd\b\s+if="@, command@),
            "raw disk write"@,
        ),
        warned(
            warning_views(r@),
            hit_of(r"(?i)\b(reboot|shutdown|poweroff|halt)\b"@, command@),
            "power state change"@,
        ),
        warned(
            warning_views(r@),
            hit_of(r"(?i)\bsystemctl\s+(restart|stop|disable)\b"@, command@),
            "service disruption"@,
        ),
        warned(
            warning_views(r@),
            hit_of(r":\(\)\s*\{.*\};\s*:"@, command@),
            "fork bomb"@,
        ),
        warned(
            warning_views(r@),
            hit_of(r"(?i)>\s*/dev/sd"@, command@),
            "write to block device"@,
        ),
        warned(
            warning_views(r@),
            hit_of(r"(?i)\bchmod\s+-R\s+777\b"@, command@),
            "world-writable recursive chmod"@,
        ),
        forall|i: int| 0 <= i < r@.len() ==> known_reason((#[trigger] r@[i]).reason@),
        forall|i: int, j: int|
            0 <= i < j < r@.len() ==> (#[trigger] r@[i]).reason@ != (#[trigger] r@[j]).reason@,
{
    let table = danger_patterns();
    let ghost model = danger_table();
    let mut hits: Vec<Option<String>> = Vec::new();
    for k in 0..table.len()
        invariant
            model == danger_table(),
            table@.len() == model.len(),
            forall|i: int|
                0 <= i < table@.len() ==> ((#[trigger] table@[i]).0@, table@[i].1@) == model[i],
            hit_texts(hits@) == hits_on(command@).take(k as int),
            forall|i: int|
                0 <= i < k ==> ((#[trigger] hits_on(command@)[i]) matches Some(found)
                    ==> pattern::quotes(command@, found)),
    {
        let ghost before = hit_texts(hits@);
        assert((table@[k as int].0@, table@[k as int].1@) == model[k as int]);
        let hit: Option<String> = first_hit(table[k].0, command);
        hits.push(hit);
        assert(hit_texts(hits@) =~= before.push(hits_on(command@)[k as int]));
    }
    assert(hit_texts(hits@) =~= hits_on(command@));
    let r = warnings_from(&hits);
    proof {
        let texts = hits_on(command@);
        assert forall|i: int| 0 <= i < r@.len() implies pattern::quotes(
            command@,
            (#[trigger] r@[i]).matched@,
        ) by {
            assert(warning_views(r@)[i] == r@[i]@);
            law_warnings_come_from_hits(model, texts, i);
            let j = choose|j: int|
                {
                    &&& 0 <= j < model.len()
                    &&& texts[j] == Some(warnings_of(model, texts)[i].matched)
                    &&& #[trigger] model[j].1 == warnings_of(model, texts)[i].reason
                };
            assert(texts[j] == Some(r@[i].matched@));
        }
        lemma_reasons_are_distinct();
        lemma_warned(model, texts, 0);
        lemma_warned(model, texts, 1);
        lemma_warned(model, texts, 2);
        lemma_warned(model, texts, 3);
        lemma_warned(model, texts, 4);
        lemma_warned(model, texts, 5);
        lemma_warned(model, texts, 6);
        lemma_warned(model, texts, 7);
        lemma_warned_once(model, texts);
        let shown = warning_views(r@);
        assert forall|i: int| 0 <= i < r@.len() implies known_reason((#[trigger] r@[i]).reason@) by {
            assert(shown[i] == r@[i]@);
            law_warnings_come_from_hits(model, texts, i);
        }
        assert forall|i: int, j: int| 0 <= i < j < r@.len() implies (#[trigger] r@[i]).reason@ != (
        #[trigger] r@[j]).reason@ by {
            assert(shown[i] == r@[i]@ && shown[j] == r@[j]@);
        }
    }
    r
}

/// The patterns of input that looks like a secret.
pub open spec fn secret_table() -> Seq<Seq<char>> {
    seq![
        r"(?i)(password|passwd|secret|token|api[_-]?key)\s*[:=]"@,
        r"(?i)bearer\s+[a-z0-9._-]{10,}"@,
        r"-----BEGIN [A-Z ]*PRIVATE KEY-----"@,
        r"\bgh[pousr]_[A-Za-z0-9]{20,}\b"@,
    ]
}

fn secret_patterns() -> (r: Vec<&'static str>)
    ensures
        r@.len() == secret_table().len(),
        forall|i: int| 0 <= i < r@.len() ==> (#[trigger] r@[i])@ == secret_table()[i],
{
    vec![
        r"(?i)(password|passwd|secret|token|api[_-]?key)\s*[:=]",
        r"(?i)bearer\s+[a-z0-9._-]{10,}",
        r"-----BEGIN [A-Z ]*PRIVATE KEY-----",
        r"\bgh[pousr]_[A-Za-z0-9]{20,}\b",
    ]
}

/// Whether input looks like a secret: one of the patterns matches.
pub open spec fn secret_like(input: Seq<char>) -> bool {
    exists|i: int|
        0 <= i < secret_table().len() && hit_of(#[trigger] secret_table()[i], input) is Some
}

/// Whether there is a match among these, one for each pattern of a table.
pub fn any_hit(hits: &Vec<bool>) -> (r: bool)
    ensures
        r == exists|i: int| 0 <= i < hits@.len() && #[trigger] hits@[i],
{
    for k in 0..hits.len()
        invariant
            forall|i: int| 0 <= i < k ==> !#[trigger] hits@[i],
    {
        if hits[k] {
            return true;
        }
    }
    false
}

/// Heuristic: does this input look like it contains a secret we should not
/// store in a macro (token, key, or a `password`-ish assignment)?
pub fn looks_like_secret(input: &str) -> (r: bool)
    ensures
        r == secret_like(input@),
        r == ({
            ||| hit_of(r"(?i)(password|passwd|secret|token|api[_-]?key)\s*[:=]"@, input@) is Some
            ||| hit_of(r"(?i)bearer\s+[a-z0-9._-]{10,}"@, input@) is Some
            ||| hit_of(r"-----BEGIN [A-Z ]*PRIVATE KEY-----"@, input@) is Some
            ||| hit_of(r"\bgh[pousr]_[A-Za-z0-9]{20,}\b"@, input@) is Some
        }),
{
    let table = secret_patterns();
    let ghost model = secret_table();
    let mut hits: Vec<bool> = Vec::new();
    for k in 0..table.len()
        invariant
            model == secret_table(),
            table@.len() == model.len(),
            forall|i: int| 0 <= i < table@.len() ==> (#[trigger] table@[i])@ == model[i],
            hits@.len() == k,
            forall|i: int|
                0 <= i < k ==> #[trigger] hits@[i] == (hit_of(model[i], input@) is Some),
    {
        assert(table@[k as int]@ == model[k as int]);
        let hit: bool = match Pattern::compile(table[k]) {
            Ok(compiled) => compiled.is_match(input),
            Err(_) => false,
        };
        hits.push(hit);
    }
    let r: bool = any_hit(&hits);
    proof {
        if r {
            let i = choose|i: int| 0 <= i < hits@.len() && #[trigger] hits@[i];
            assert(hit_of(model[i], input@) is Some);
        }
        if secret_like(input@) {
            let i = choose|i: int|
                0 <= i < model.len() && hit_of(#[trigger] model[i], input@) is Some;
            assert(hits@[i]);
        }
        law_input_that_looks_like_a_secret(input@);
    }
    r
}

/// Every warning carries the first match of a pattern, and the reason that
/// stands beside that pattern.
pub proof fn law_warnings_come_from_hits(
    table: Seq<(Seq<char>, Seq<char>)>,
    hits: Seq<Option<Seq<char>>>,
    at: int,
)
    requires
        table.len() == hits.len(),
        0 <= at < warnings_of(table, hits).len(),
    ensures
        exists|i: int|
            {
                &&& 0 <= i < table.len()
                &&& hits[i] == Some(warnings_of(table, hits)[at].matched)
                &&& #[trigger] table[i].1 == warnings_of(table, hits)[at].reason
            },
    decreases table.len(),
{
    let shorter = table.drop_last();
    let earlier = warnings_of(shorter, hits.drop_last());
    if at < earlier.len() {
        law_warnings_come_from_hits(shorter, hits.drop_last(), at);
        let i = choose|i: int|
            {
                &&& 0 <= i < shorter.len()
                &&& hits.drop_last()[i] == Some(earlier[at].matched)
                &&& #[trigger] shorter[i].1 == earlier[at].reason
            };
        assert(table[i] == shorter[i]);
        assert(hits[i] == hits.drop_last()[i]);
    } else {
        assert(hits[table.len() - 1] is Some);
        assert(table[table.len() - 1] == table.last());
    }
}

/// A command is flagged exactly when one of the patterns matches it.
pub proof fn law_flagged_iff_a_pattern_matches(
    table: Seq<(Seq<char>, Seq<char>)>,
    hits: Seq<Option<Seq<char>>>,
)
    requires
        table.len() == hits.len(),
    ensures
        warnings_of(table, hits).len() > 0 <==> exists|i: int|
            0 <= i < hits.len() && (#[trigger] hits[i]) is Some,
    decreases table.len(),
{
    if table.len() > 0 {
        let fewer = hits.drop_last();
        law_flagged_iff_a_pattern_matches(table.drop_last(), fewer);
        if exists|i: int| 0 <= i < fewer.len() && (#[trigger] fewer[i]) is Some {
            let i = choose|i: int| 0 <= i < fewer.len() && (#[trigger] fewer[i]) is Some;
            assert(hits[i] is Some);
        }
        if exists|i: int| 0 <= i < hits.len() && (#[trigger] hits[i]) is Some {
            let i = choose|i: int| 0 <= i < hits.len() && (#[trigger] hits[i]) is Some;
            if i < fewer.len() {
                assert(fewer[i] is Some);
            }
        }
        assert(hits[table.len() - 1] is Some || hits[table.len() - 1] is None);
    }
}

/// The first match of a pattern that compiles is the one that the engine finds,
/// and a pattern that does not compile has none.
pub proof fn law_first_match_of_a_pattern(pattern: Seq<char>, text: Seq<char>)
    ensures
        pattern::regex_error(pattern, usize::BITS as nat) is None ==> hit_of(pattern, text)
            == pattern::first_match(pattern, text),
        pattern::regex_error(pattern, usize::BITS as nat) is Some ==> hit_of(pattern, text) is None,
{
}

/// Input looks like a secret where it assigns a password or the like, carries a
/// bearer token, holds a private key or a token of a forge, and nowhere else.
pub proof fn law_input_that_looks_like_a_secret(input: Seq<char>)
    ensures
        secret_like(input) == ({
            ||| hit_of(r"(?i)(password|passwd|secret|token|api[_-]?key)\s*[:=]"@, input) is Some
            ||| hit_of(r"(?i)bearer\s+[a-z0-9._-]{10,}"@, input) is Some
            ||| hit_of(r"-----BEGIN [A-Z ]*PRIVATE KEY-----"@, input) is Some
            ||| hit_of(r"\bgh[pousr]_[A-Za-z0-9]{20,}\b"@, input) is Some
        }),
{
    let table = secret_table();
    assert(table[0] == r"(?i)(password|passwd|secret|token|api[_-]?key)\s*[:=]"@);
    assert(table[1] == r"(?i)bearer\s+[a-z0-9._-]{10,}"@);
    assert(table[2] == r"-----BEGIN [A-Z ]*PRIVATE KEY-----"@);
    assert(table[3] == r"\bgh[pousr]_[A-Za-z0-9]{20,}\b"@);
}

/// A command is warned of where it deletes by force, formats, writes to a disk,
/// changes the power state, disrupts a service, forks without end, writes to a
/// block device or opens a tree to the world, with the reason that says so, and
/// in this order.
pub proof fn law_commands_that_are_warned_of(command: Seq<char>)
    ensures
        warned(
            warnings_of(danger_table(), hits_on(command)),
            hit_of(r"(?i)\brm\s+-[a-z]*r[a-z]*f"@, command),
            "recursive force delete"@,
        ),
        warned(
            warnings_of(danger_table(), hits_on(command)),
            hit_of(r"(?i)\bmkfs\b"@, command),
            "filesystem format"@,
        ),
        warned(
            warnings_of(danger_table(), hits_on(command)),
            hit_of(r"(?i)\bdd\b\s+if="@, command),
            "raw disk write"@,
        ),
        warned(
            warnings_of(danger_table(), hits_on(command)),
            hit_of(r"(?i)\b(reboot|shutdown|poweroff|halt)\b"@, command),
            "power state change"@,
        ),
        warned(
            warnings_of(danger_table(), hits_on(command)),
            hit_of(r"(?i)\bsystemctl\s+(restart|stop|disable)\b"@, command),
            "service disruption"@,
        ),
        warned(
            warnings_of(danger_table(), hits_on(command)),
            hit_of(r":\(\)\s*\{.*\};\s*:"@, command),
            "fork bomb"@,
        ),
        warned(
            warnings_of(danger_table(), hits_on(command)),
            hit_of(r"(?i)>\s*/dev/sd"@, command),
            "write to block device"@,
        ),
        warned(
            warnings_of(danger_table(), hits_on(command)),
            hit_of(r"(?i)\bchmod\s+-R\s+777\b"@, command),
            "world-writable recursive chmod"@,
        ),
        warnings_of(danger_table(), hits_on(command)).len() > 0 <==> ({
            ||| hit_of(r"(?i)\brm\s+-[a-z]*r[a-z]*f"@, command) is Some
            ||| hit_of(r"(?i)\bmkfs\b"@, command) is Some
            ||| hit_of(r"(?i)\bdd\b\s+if="@, command) is Some
            ||| hit_of(r"(?i)\b(reboot|shutdown|poweroff|halt)\b"@, command) is Some
            ||| hit_of(r"(?i)\bsystemctl\s+(restart|stop|disable)\b"@, command) is Some
            ||| hit_of(r":\(\)\s*\{.*\};\s*:"@, command) is Some
            ||| hit_of(r"(?i)>\s*/dev/sd"@, command) is Some
            ||| hit_of(r"(?i)\bchmod\s+-R\s+777\b"@, command) is Some
        }),
{
    let table = danger_table();
    let hits = hits_on(command);
    lemma_reasons_are_distinct();
    lemma_warned(table, hits, 0);
    lemma_warned(table, hits, 1);
    lemma_warned(table, hits, 2);
    lemma_warned(table, hits, 3);
    lemma_warned(table, hits, 4);
    lemma_warned(table, hits, 5);
    lemma_warned(table, hits, 6);
    lemma_warned(table, hits, 7);
    law_flagged_iff_a_pattern_matches(table, hits);
    assert(hits[0] == hit_of(r"(?i)\brm\s+-[a-z]*r[a-z]*f"@, command));
    assert(hits[1] == hit_of(r"(?i)\bmkfs\b"@, command));
    assert(hits[2] == hit_of(r"(?i)\bdd\b\s+if="@, command));
    assert(hits[3] == hit_of(r"(?i)\b(reboot|shutdown|poweroff|halt)\b"@, command));
    assert(hits[4] == hit_of(r"(?i)\bsystemctl\s+(restart|stop|disable)\b"@, command));
    assert(hits[5] == hit_of(r":\(\)\s*\{.*\};\s*:"@, command));
    assert(hits[6] == hit_of(r"(?i)>\s*/dev/sd"@, command));
    assert(hits[7] == hit_of(r"(?i)\bchmod\s+-R\s+777\b"@, command));
}

} // verus!
