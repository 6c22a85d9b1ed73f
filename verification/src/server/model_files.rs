use vstd::prelude::*;
use vstd::multiset::Multiset;
use vstd::string::*;

verus! {

/// Why the files of a speech model could not be settled.
#[derive(Debug, Clone, PartialEq, Eq)]
pub enum ModelSetupError {
    /// No model directory is configured.
    PathUnset,
    /// The model directory does not end in `/`.
    PathWithoutSlash,
    /// No acoustic model was given or found in the directory.
    AcousticModelNotFound,
    /// No vocoder was given or found in the directory.
    VocoderNotFound,
    /// The output sample rate is not configured.
    OutputSampleRateUnset,
    /// The output channel count is not configured.
    OutputChannelUnset,
    /// The output frame duration is not configured.
    OutputFrameDurationUnset,
}

/// Whether `s` ends in a slash.
pub open spec fn ends_with_slash(s: Seq<char>) -> bool {
    s.len() > 0 && s.last() == '/'
}

/// Whether `needle` occurs in `s` at position `at`.
pub open spec fn occurs_at(s: Seq<char>, needle: Seq<char>, at: int) -> bool {
    0 <= at && at + needle.len() <= s.len() && s.subrange(at, at + needle.len()) == needle
}

/// Whether `needle` occurs anywhere in `s`.
pub open spec fn contains_text(s: Seq<char>, needle: Seq<char>) -> bool {
    exists|at: int| #[trigger] occurs_at(s, needle, at)
}

/// Whether two texts are the same, char by char.
pub fn same_text(a: &str, b: &str) -> (r: bool)
    ensures
        r == (a@ == b@),
{
    let n = a.unicode_len();
    if n != b.unicode_len() {
        return false;
    }
    let mut i: usize = 0;
    while i < n
        invariant
            n == a@.len(),
            n == b@.len(),
            0 <= i <= n,
            forall|j: int| 0 <= j < i ==> a@[j] == b@[j],
        decreases n - i,
    {
        if a.get_char(i) != b.get_char(i) {
            return false;
        }
        i = i + 1;
    }
    proof {
        assert(a@ =~= b@);
    }
    true
}

/// Whether `text` ends in a slash.
pub fn ends_with_slash_text(text: &str) -> (r: bool)
    ensures
        r == ends_with_slash(text@),
{
    let n = text.unicode_len();
    n > 0 && text.get_char(n - 1) == '/'
}

/// Whether `needle` occurs at position `at` of `s`, checked char by char.
fn occurs_at_text(s: &str, needle: &str, at: usize) -> (r: bool)
    requires
        at + needle@.len() <= s@.len(),
        s@.len() <= usize::MAX,
    ensures
        r == occurs_at(s@, needle@, at as int),
{
    let m = needle.unicode_len();
    let mut j: usize = 0;
    while j < m
        invariant
            m == needle@.len(),
            at + m <= s@.len(),
            s@.len() <= usize::MAX,
            0 <= j <= m,
            forall|k: int| 0 <= k < j ==> s@[at + k] == needle@[k],
        decreases m - j,
    {
        if s.get_char(at + j) != needle.get_char(j) {
            proof {
                assert(s@.subrange(at as int, at + m)[j as int] != needle@[j as int]);
            }
            return false;
        }
        j = j + 1;
    }
    proof {
        assert(s@.subrange(at as int, at + m) =~= needle@);
    }
    true
}

/// Whether `needle` occurs anywhere in `s`.
pub fn contains_text_exec(s: &str, needle: &str) -> (r: bool)
    ensures
        r == contains_text(s@, needle@),
{
    let n = s.unicode_len();
    let m = needle.unicode_len();
    if m > n {
        assert forall|at: int| !occurs_at(s@, needle@, at) by {}
        return false;
    }
    if m == 0 {
        assert(s@.subrange(0, 0) =~= needle@);
        assert(occurs_at(s@, needle@, 0));
        return true;
    }
    let mut at: usize = 0;
    while at <= n - m
        invariant
            n == s@.len(),
            m == needle@.len(),
            0 < m <= n,
            0 <= at <= n - m + 1,
            forall|k: int| 0 <= k < at ==> !#[trigger] occurs_at(s@, needle@, k),
        decreases n - m + 1 - at,
    {
        if occurs_at_text(s, needle, at) {
            return true;
        }
        at = at + 1;
    }
    assert forall|k: int| !#[trigger] occurs_at(s@, needle@, k) by {}
    false
}

/// The model directory out of the configured path: it must be set and end in
/// a slash.
pub fn model_dir(path: Option<&str>) -> (r: Result<&str, ModelSetupError>)
    ensures
        match path {
            None => r == Err::<&str, ModelSetupError>(ModelSetupError::PathUnset),
            Some(p) => if ends_with_slash(p@) {
                r == Ok::<&str, ModelSetupError>(p)
            } else {
                r == Err::<&str, ModelSetupError>(ModelSetupError::PathWithoutSlash)
            },
        },
{
    match path {
        None => Err(ModelSetupError::PathUnset),
        Some(p) => if ends_with_slash_text(p) {
            Ok(p)
        } else {
            Err(ModelSetupError::PathWithoutSlash)
        },
    }
}

/// One entry of a model directory, in listing order: its full path, and its
/// file stem and extension where it has them.
#[derive(Debug, Clone)]
pub struct DirEntryName {
    pub path: String,
    pub stem: Option<String>,
    pub extension: Option<String>,
}

/// The text of an optional string.
pub open spec fn text_of(s: Option<String>) -> Option<Seq<char>> {
    match s {
        Some(t) => Some(t@),
        None => None,
    }
}

/// Whether `entry` is an ONNX file whose stem is `prefix`.
pub open spec fn is_onnx_named(entry: DirEntryName, prefix: Seq<char>) -> bool {
    text_of(entry.extension) == Some("onnx"@) && text_of(entry.stem) == Some(prefix)
}

/// The path of the first entry from position `i` on that is an ONNX file
/// named `prefix`.
pub open spec fn first_onnx_from(entries: Seq<DirEntryName>, prefix: Seq<char>, i: int) -> Option<
    Seq<char>,
>
    decreases entries.len() - i,
{
    if i < 0 || i >= entries.len() {
        None
    } else if is_onnx_named(entries[i], prefix) {
        Some(entries[i].path@)
    } else {
        first_onnx_from(entries, prefix, i + 1)
    }
}

/// The path of the first entry that is an ONNX file named `prefix`.
pub open spec fn first_onnx(entries: Seq<DirEntryName>, prefix: Seq<char>) -> Option<Seq<char>> {
    first_onnx_from(entries, prefix, 0)
}

fn entry_is_onnx_named(entry: &DirEntryName, prefix: &str) -> (r: bool)
    ensures
        r == is_onnx_named(*entry, prefix@),
{
    match (&entry.extension, &entry.stem) {
        (Some(ext), Some(stem)) => same_text(ext.as_str(), "onnx") && same_text(stem.as_str(), prefix),
        _ => false,
    }
}

/// The first ONNX file in the directory listing whose stem is `prefix`.
pub fn discover_onnx(entries: &Vec<DirEntryName>, prefix: &str) -> (r: Option<String>)
    ensures
        text_of(r) == first_onnx(entries@, prefix@),
{
    let mut i: usize = 0;
    while i < entries.len()
        invariant
            0 <= i <= entries@.len(),
            first_onnx(entries@, prefix@) == first_onnx_from(entries@, prefix@, i as int),
        decreases entries@.len() - i,
    {
        if entry_is_onnx_named(&entries[i], prefix) {
            return Some(entries[i].path.clone());
        }
        i = i + 1;
    }
    None
}

/// A given setting, or else what stands in for it.
pub open spec fn given_or(given: Option<String>, fallback: Option<Seq<char>>) -> Option<Seq<char>> {
    match given {
        Some(g) => Some(g@),
        None => fallback,
    }
}

/// The first of two options that is there.
pub open spec fn either_of(first: Option<Seq<char>>, second: Option<Seq<char>>) -> Option<Seq<char>> {
    match first {
        Some(f) => Some(f),
        None => second,
    }
}

/// `name` inside the directory `dir`, which ends in a slash.
fn file_in(dir: &str, name: &str) -> (r: String)
    ensures
        r@ == dir@ + name@,
{
    let mut r = String::from_str(dir);
    r.append(name);
    r
}

/// A given path, or the default file name inside `dir`.
fn given_or_in(given: Option<String>, dir: &str, name: &str) -> (r: String)
    ensures
        Some(r@) == given_or(given, Some(dir@ + name@)),
{
    match given {
        Some(g) => g,
        None => file_in(dir, name),
    }
}

/// The files a Matcha model is built from.
#[derive(Debug, Clone)]
pub struct MatchaFiles {
    pub acoustic_model: String,
    pub vocoder: String,
    pub tokens: String,
    pub lexicon: String,
}

/// The acoustic model a Matcha model uses: the one given, else the
/// directory's `model-steps-3` ONNX file.
pub open spec fn matcha_acoustic(given: Option<String>, entries: Seq<DirEntryName>) -> Option<Seq<char>> {
    given_or(given, first_onnx(entries, "model-steps-3"@))
}

/// The vocoder a Matcha model uses: the one given, else the directory's
/// 22 kHz Vocos ONNX file, else its 16 kHz one.
pub open spec fn matcha_vocoder(given: Option<String>, entries: Seq<DirEntryName>) -> Option<Seq<char>> {
    given_or(
        given,
        either_of(
            first_onnx(entries, "vocos-22khz-univ"@),
            first_onnx(entries, "vocos-16khz-univ"@),
        ),
    )
}

/// Settles the files of a Matcha model from the configured directory, the
/// files given in the options, and the directory's listing. The directory
/// must be set and end in a slash; the acoustic model and the vocoder must be
/// given or found in the listing; tokens and lexicon default to `tokens.txt`
/// and `lexicon.txt` in the directory.
pub fn matcha_files(
    path: Option<&str>,
    acoustic_model: Option<String>,
    vocoder: Option<String>,
    tokens: Option<String>,
    lexicon: Option<String>,
    entries: &Vec<DirEntryName>,
) -> (r: Result<MatchaFiles, ModelSetupError>)
    ensures
        match path {
            None => r == Err::<MatchaFiles, ModelSetupError>(ModelSetupError::PathUnset),
            Some(p) => if !ends_with_slash(p@) {
                r == Err::<MatchaFiles, ModelSetupError>(ModelSetupError::PathWithoutSlash)
            } else if matcha_acoustic(acoustic_model, entries@) is None {
                r == Err::<MatchaFiles, ModelSetupError>(ModelSetupError::AcousticModelNotFound)
            } else if matcha_vocoder(vocoder, entries@) is None {
                r == Err::<MatchaFiles, ModelSetupError>(ModelSetupError::VocoderNotFound)
            } else {
                &&& r is Ok
                &&& Some(r->Ok_0.acoustic_model@) == matcha_acoustic(acoustic_model, entries@)
                &&& Some(r->Ok_0.vocoder@) == matcha_vocoder(vocoder, entries@)
                &&& Some(r->Ok_0.tokens@) == given_or(tokens, Some(p@ + "tokens.txt"@))
                &&& Some(r->Ok_0.lexicon@) == given_or(lexicon, Some(p@ + "lexicon.txt"@))
            },
        },
{
    let dir = match model_dir(path) {
        Ok(d) => d,
        Err(e) => return Err(e),
    };
    let acoustic_model = match acoustic_model {
        Some(a) => a,
        None => match discover_onnx(entries, "model-steps-3") {
            Some(a) => a,
            None => return Err(ModelSetupError::AcousticModelNotFound),
        },
    };
    let vocoder = match vocoder {
        Some(v) => v,
        None => match discover_onnx(entries, "vocos-22khz-univ") {
            Some(v) => v,
            None => match discover_onnx(entries, "vocos-16khz-univ") {
                Some(v) => v,
                None => return Err(ModelSetupError::VocoderNotFound),
            },
        },
    };
    let tokens = given_or_in(tokens, dir, "tokens.txt");
    let lexicon = given_or_in(lexicon, dir, "lexicon.txt");
    Ok(MatchaFiles { acoustic_model, vocoder, tokens, lexicon })
}

/// The audio output a speech model encodes to: sample rate, channel count and
/// frame duration, each of which must be configured, checked in that order.
pub fn output_settings(sample_rate: Option<u32>, channel: Option<u32>, frame_duration: Option<u64>) -> (r:
    Result<(u32, u32, u64), ModelSetupError>)
    ensures
        match (sample_rate, channel, frame_duration) {
            (Some(s), Some(c), Some(f)) => r == Ok::<(u32, u32, u64), ModelSetupError>((s, c, f)),
            (None, _, _) => r == Err::<(u32, u32, u64), ModelSetupError>(
                ModelSetupError::OutputSampleRateUnset,
            ),
            (Some(_), None, _) => r == Err::<(u32, u32, u64), ModelSetupError>(
                ModelSetupError::OutputChannelUnset,
            ),
            (Some(_), Some(_), None) => r == Err::<(u32, u32, u64), ModelSetupError>(
                ModelSetupError::OutputFrameDurationUnset,
            ),
        },
{
    match (sample_rate, channel, frame_duration) {
        (Some(s), Some(c), Some(f)) => Ok((s, c, f)),
        (None, _, _) => Err(ModelSetupError::OutputSampleRateUnset),
        (Some(_), None, _) => Err(ModelSetupError::OutputChannelUnset),
        (Some(_), Some(_), None) => Err(ModelSetupError::OutputFrameDurationUnset),
    }
}

/// The files a Pocket model is built from.
#[derive(Debug, Clone)]
pub struct PocketFiles {
    pub lm_flow: String,
    pub lm_main: String,
    pub encoder: String,
    pub decoder: String,
    pub text_conditioner: String,
    pub vocab_json: String,
    pub token_scores_json: String,
}

/// The files given in a Pocket model's options, each of which may be left
/// out.
#[derive(Debug, Clone, Default)]
pub struct PocketFileOptions {
    pub lm_flow: Option<String>,
    pub lm_main: Option<String>,
    pub encoder: Option<String>,
    pub decoder: Option<String>,
    pub text_conditioner: Option<String>,
    pub vocab_json: Option<String>,
    pub token_scores_json: Option<String>,
}

/// Settles the files of a Pocket model from the configured directory and the
/// files given in the options. The directory must be set and end in a slash;
/// each file left out is its default name inside the directory.
pub fn pocket_files(path: Option<&str>, given: PocketFileOptions) -> (r: Result<
    PocketFiles,
    ModelSetupError,
>)
    ensures
        match path {
            None => r == Err::<PocketFiles, ModelSetupError>(ModelSetupError::PathUnset),
            Some(p) => if !ends_with_slash(p@) {
                r == Err::<PocketFiles, ModelSetupError>(ModelSetupError::PathWithoutSlash)
            } else {
                &&& r is Ok
                &&& Some(r->Ok_0.lm_flow@) == given_or(given.lm_flow, Some(p@ + "lm_flow.int8.onnx"@))
                &&& Some(r->Ok_0.lm_main@) == given_or(given.lm_main, Some(p@ + "lm_main.int8.onnx"@))
                &&& Some(r->Ok_0.encoder@) == given_or(given.encoder, Some(p@ + "encoder.onnx"@))
                &&& Some(r->Ok_0.decoder@) == given_or(given.decoder, Some(p@ + "decoder.int8.onnx"@))
                &&& Some(r->Ok_0.text_conditioner@) == given_or(
                    given.text_conditioner,
                    Some(p@ + "text_conditioner.onnx"@),
                )
                &&& Some(r->Ok_0.vocab_json@) == given_or(given.vocab_json, Some(p@ + "vocab.json"@))
                &&& Some(r->Ok_0.token_scores_json@) == given_or(
                    given.token_scores_json,
                    Some(p@ + "token_scores.json"@),
                )
            },
        },
{
    let dir = match model_dir(path) {
        Ok(d) => d,
        Err(e) => return Err(e),
    };
    Ok(PocketFiles {
        lm_flow: given_or_in(given.lm_flow, dir, "lm_flow.int8.onnx"),
        lm_main: given_or_in(given.lm_main, dir, "lm_main.int8.onnx"),
        encoder: given_or_in(given.encoder, dir, "encoder.onnx"),
        decoder: given_or_in(given.decoder, dir, "decoder.int8.onnx"),
        text_conditioner: given_or_in(given.text_conditioner, dir, "text_conditioner.onnx"),
        vocab_json: given_or_in(given.vocab_json, dir, "vocab.json"),
        token_scores_json: given_or_in(given.token_scores_json, dir, "token_scores.json"),
    })
}

/// Where a rule file sits in the order the text normaliser applies them:
/// phone numbers first, then dates, then numbers, then the rest.
pub open spec fn fst_priority(file: Seq<char>) -> int {
    if contains_text(file, "phone"@) {
        0
    } else if contains_text(file, "date"@) {
        1
    } else if contains_text(file, "number"@) {
        2
    } else {
        3
    }
}

fn fst_priority_of(file: &str) -> (r: u8)
    ensures
        r == fst_priority(file@),
{
    if contains_text_exec(file, "phone") {
        0
    } else if contains_text_exec(file, "date") {
        1
    } else if contains_text_exec(file, "number") {
        2
    } else {
        3
    }
}

/// The files of `files` with priority `p`, in their order.
pub open spec fn with_priority(files: Seq<String>, p: int) -> Seq<String>
    decreases files.len(),
{
    if files.len() == 0 {
        Seq::empty()
    } else {
        with_priority(files.drop_last(), p) + if fst_priority(files.last()@) == p {
            seq![files.last()]
        } else {
            Seq::empty()
        }
    }
}

/// The rule files in the order they are applied: a stable order by priority.
pub open spec fn rule_fst_order_of(files: Seq<String>) -> Seq<String> {
    with_priority(files, 0) + with_priority(files, 1) + with_priority(files, 2) + with_priority(
        files,
        3,
    )
}

/// Orders the rule files as the text normaliser applies them: phone-number
/// rules first, then dates, then numbers, then the rest, keeping the listing
/// order within each group.
pub fn rule_fst_order(files: &Vec<String>) -> (r: Vec<String>)
    ensures
        r@ == rule_fst_order_of(files@),
{
    let mut priorities: Vec<u8> = Vec::new();
    let mut i: usize = 0;
    while i < files.len()
        invariant
            0 <= i <= files@.len(),
            priorities@.len() == i,
            forall|j: int| 0 <= j < i ==> priorities@[j] == fst_priority(#[trigger] files@[j]@),
        decreases files@.len() - i,
    {
        let p = fst_priority_of(files[i].as_str());
        priorities.push(p);
        i = i + 1;
    }
    let mut out: Vec<String> = Vec::new();
    let mut p: u8 = 0;
    while p < 4
        invariant
            priorities@.len() == files@.len(),
            forall|j: int| 0 <= j < files@.len() ==> priorities@[j] == fst_priority(#[trigger] files@[j]@),
            0 <= p <= 4,
            p == 0 ==> out@ == Seq::<String>::empty(),
            p == 1 ==> out@ == with_priority(files@, 0),
            p == 2 ==> out@ == with_priority(files@, 0) + with_priority(files@, 1),
            p == 3 ==> out@ == with_priority(files@, 0) + with_priority(files@, 1) + with_priority(files@, 2),
            p == 4 ==> out@ == rule_fst_order_of(files@),
        decreases 4 - p,
    {
        let ghost start = out@;
        let mut i: usize = 0;
        while i < files.len()
            invariant
                priorities@.len() == files@.len(),
                forall|j: int|
                    0 <= j < files@.len() ==> priorities@[j] == fst_priority(#[trigger] files@[j]@),
                0 <= i <= files@.len(),
                out@ == start + with_priority(files@.take(i as int), p as int),
            decreases files@.len() - i,
        {
            proof {
                let taken = files@.take(i + 1);
                assert(taken.drop_last() =~= files@.take(i as int));
                assert(taken.last() == files@[i as int]);
            }
            if priorities[i] == p {
                out.push(files[i].clone());
            }
            proof {
                let taken = files@.take(i + 1);
                assert(out@ =~= start + with_priority(taken, p as int));
            }
            i = i + 1;
        }
        proof {
            assert(files@.take(files@.len() as int) =~= files@);
        }
        p = p + 1;
    }
    out
}

/// The paths of the listing's `.fst` entries, in listing order.
pub open spec fn fst_paths(entries: Seq<DirEntryName>) -> Seq<String>
    decreases entries.len(),
{
    if entries.len() == 0 {
        Seq::empty()
    } else {
        fst_paths(entries.drop_last()) + if text_of(entries.last().extension) == Some("fst"@) {
            seq![entries.last().path]
        } else {
            Seq::empty()
        }
    }
}

/// The texts of `parts` joined with commas.
pub open spec fn comma_joined(parts: Seq<String>) -> Seq<char>
    decreases parts.len(),
{
    if parts.len() == 0 {
        Seq::empty()
    } else if parts.len() == 1 {
        parts[0]@
    } else {
        comma_joined(parts.drop_last()) + ","@ + parts.last()@
    }
}

/// The rule files setting of a Matcha model: the directory's `.fst` files in
/// the order they are applied, joined with commas; none when there are none.
pub open spec fn rule_fsts_of(entries: Seq<DirEntryName>) -> Option<Seq<char>> {
    let ordered = rule_fst_order_of(fst_paths(entries));
    if ordered.len() == 0 {
        None
    } else {
        Some(comma_joined(ordered))
    }
}

/// The `.fst` files of the directory listing, in listing order.
fn fst_files(entries: &Vec<DirEntryName>) -> (r: Vec<String>)
    ensures
        r@ == fst_paths(entries@),
{
    let mut out: Vec<String> = Vec::new();
    let mut i: usize = 0;
    while i < entries.len()
        invariant
            0 <= i <= entries@.len(),
            out@ == fst_paths(entries@.take(i as int)),
        decreases entries@.len() - i,
    {
        proof {
            let taken = entries@.take(i + 1);
            assert(taken.drop_last() =~= entries@.take(i as int));
            assert(taken.last() == entries@[i as int]);
        }
        let is_fst = match &entries[i].extension {
            Some(ext) => same_text(ext.as_str(), "fst"),
            None => false,
        };
        if is_fst {
            out.push(entries[i].path.clone());
        }
        proof {
            assert(out@ =~= fst_paths(entries@.take(i + 1)));
        }
        i = i + 1;
    }
    proof {
        assert(entries@.take(entries@.len() as int) =~= entries@);
    }
    out
}

/// The rule files setting of a Matcha model, from the directory listing: its
/// `.fst` files in the order they are applied, joined with commas, or none.
pub fn rule_fsts(entries: &Vec<DirEntryName>) -> (r: Option<String>)
    ensures
        text_of(r) == rule_fsts_of(entries@),
{
    let files = fst_files(entries);
    let ordered = rule_fst_order(&files);
    if ordered.len() == 0 {
        return None;
    }
    let mut joined = String::new();
    let mut i: usize = 0;
    while i < ordered.len()
        invariant
            0 <= i <= ordered@.len(),
            joined@ == comma_joined(ordered@.take(i as int)),
        decreases ordered@.len() - i,
    {
        proof {
            let taken = ordered@.take(i + 1);
            assert(taken.drop_last() =~= ordered@.take(i as int));
            assert(taken.last() == ordered@[i as int]);
        }
        if i > 0 {
            joined.append(",");
        }
        joined.append(ordered[i].as_str());
        proof {
            let taken = ordered@.take(i + 1);
            if i == 0 {
                assert(joined@ =~= taken[0]@);
            } else {
                assert(joined@ =~= comma_joined(taken.drop_last()) + ","@ + taken.last()@);
            }
        }
        i = i + 1;
    }
    proof {
        assert(ordered@.take(ordered@.len() as int) =~= ordered@);
    }
    Some(joined)
}

proof fn lemma_priority_groups_cover(files: Seq<String>)
    ensures
        with_priority(files, 0).to_multiset().add(with_priority(files, 1).to_multiset()).add(
            with_priority(files, 2).to_multiset(),
        ).add(with_priority(files, 3).to_multiset()) =~= files.to_multiset(),
    decreases files.len(),
{
    broadcast use vstd::multiset::group_multiset_axioms;
    broadcast use vstd::seq_lib::lemma_multiset_commutative;

    if files.len() == 0 {
        vstd::seq_lib::to_multiset_len(files);
        vstd::multiset::lemma_multiset_empty_len(files.to_multiset());
        assert(files.to_multiset() =~= Multiset::<String>::empty());
        assert(Seq::<String>::empty() =~= files);
        assert(with_priority(files, 0) =~= Seq::<String>::empty());
        assert(with_priority(files, 1) =~= Seq::<String>::empty());
        assert(with_priority(files, 2) =~= Seq::<String>::empty());
        assert(with_priority(files, 3) =~= Seq::<String>::empty());
        assert(Seq::<String>::empty().to_multiset() =~= Multiset::<String>::empty());
    } else {
        let init = files.drop_last();
        let x = files.last();
        lemma_priority_groups_cover(init);
        assert(init.push(x) =~= files);
        vstd::seq_lib::to_multiset_build(init, x);
        let none = Seq::<String>::empty();
        assert(none.to_multiset() =~= Multiset::<String>::empty()) by {
            vstd::seq_lib::to_multiset_len(none);
            vstd::multiset::lemma_multiset_empty_len(none.to_multiset());
        }
        assert(seq![x].to_multiset() =~= Multiset::<String>::empty().insert(x)) by {
            vstd::seq_lib::to_multiset_build(none, x);
            assert(none.push(x) =~= seq![x]);
        }
    }
}

/// Ordering the rule files keeps every file, each as often as it was listed.
pub proof fn lemma_rule_fst_order_keeps_files(files: Seq<String>)
    ensures
        rule_fst_order_of(files).to_multiset() =~= files.to_multiset(),
        rule_fst_order_of(files).len() == files.len(),
{
    broadcast use vstd::multiset::group_multiset_axioms;
    broadcast use vstd::seq_lib::lemma_multiset_commutative;
    lemma_priority_groups_cover(files);
    vstd::seq_lib::to_multiset_len(files);
    vstd::seq_lib::to_multiset_len(rule_fst_order_of(files));
}

} // verus!
