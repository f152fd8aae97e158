//! Control-plane rules: which config keys may change at runtime and how a
//! batch of config updates is accepted or rejected as a whole, and how
//! prompt attachments are named, decoded and linked.
use vstd::prelude::*;
use vstd::string::StringSliceAdditionalSpecFns;
use vstd::utf8::encode_utf8;
use crate::errors::opt_view;
use crate::types::ControlPromptAttachment;
use crate::bindings::{
    base64_decode_standard, base64_standard_decode, percent_encode_non_alnum,
    percent_encode_path_segment,
};
use crate::numfmt::{decimal, push_decimal};
use crate::text::{
    ascii_lower_chars, ascii_lower_seq, before_first, chars_eq_str, chars_of, find_char,
    has_prefix_str, is_ascii_alnum, is_ascii_alnum_exec,
    lemma_rfind_before_bounds, push_all, push_str, rfind_before, slice_chars, string_from_chars,
    trim, trim_chars,
};

verus! {

pub const MAX_CONTROL_PROMPT_IMAGE_ATTACHMENT_BYTES: u64 = 20971520;

pub const MAX_CONTROL_PROMPT_FILE_ATTACHMENT_BYTES: u64 = 20971520;

// ---------------------------------------------------------- runtime config

/// How a requested config change was handled.
#[derive(Debug, Clone, Copy, PartialEq, Eq, Structural)]
pub enum RuntimeConfigUpdateEffect {
    AcceptedRequiresRestart,
    AcceptedReloaded,
    Rejected,
}

/// The outcome for one requested key.
#[derive(Debug, Clone, PartialEq, Eq)]
pub struct RuntimeConfigUpdateResult {
    pub key: String,
    pub effect: RuntimeConfigUpdateEffect,
    pub reason: String,
}

/// Keys the running host accepts changes for.
pub open spec fn runtime_mutable_key(key: Seq<char>) -> bool {
    ||| key == "api.cors.enabled"@
    ||| key == "api.cors.allowed_origins"@
    ||| key == "api.cors.allowed_methods"@
    ||| key == "api.cors.allowed_headers"@
    ||| key == "api.cors.allow_credentials"@
    ||| key == "api.cors.max_age_seconds"@
    ||| key == "model.default"@
    ||| key == "model.fallbacks"@
    ||| key == "vision.default"@
    ||| key == "models.catalog"@
    ||| key == "model.unknown_fallback"@
    ||| key == "model.unknown_fallback.context_window_tokens"@
    ||| key == "model.unknown_fallback.effective_context_window_percent"@
    ||| key == "model.unknown_fallback.prompt_budget_estimated_tokens"@
    ||| key == "model.unknown_fallback.compaction_trigger_estimated_tokens"@
    ||| key == "model.unknown_fallback.compaction_keep_recent_estimated_tokens"@
    ||| key == "model.unknown_fallback.runtime_max_output_tokens"@
    ||| key == "runtime.max_output_tokens"@
    ||| key == "runtime.default_tool_output_tokens"@
    ||| key == "runtime.max_tool_output_tokens"@
    ||| key == "runtime.disable_provider_fallback"@
    ||| "providers."@.is_prefix_of(key)
    ||| "agent_templates."@.is_prefix_of(key)
    ||| "web."@.is_prefix_of(key)
}

/// Whether the running host accepts changes to `key`.
pub fn is_runtime_mutable_config_key(key: &str) -> (b: bool)
    ensures
        b == runtime_mutable_key(key@),
{
    let k = chars_of(key);
    chars_eq_str(&k, "api.cors.enabled") || chars_eq_str(&k, "api.cors.allowed_origins")
        || chars_eq_str(&k, "api.cors.allowed_methods") || chars_eq_str(
        &k,
        "api.cors.allowed_headers",
    ) || chars_eq_str(&k, "api.cors.allow_credentials") || chars_eq_str(
        &k,
        "api.cors.max_age_seconds",
    ) || chars_eq_str(&k, "model.default") || chars_eq_str(&k, "model.fallbacks")
        || chars_eq_str(&k, "vision.default") || chars_eq_str(&k, "models.catalog")
        || chars_eq_str(&k, "model.unknown_fallback") || chars_eq_str(
        &k,
        "model.unknown_fallback.context_window_tokens",
    ) || chars_eq_str(&k, "model.unknown_fallback.effective_context_window_percent")
        || chars_eq_str(&k, "model.unknown_fallback.prompt_budget_estimated_tokens")
        || chars_eq_str(&k, "model.unknown_fallback.compaction_trigger_estimated_tokens")
        || chars_eq_str(&k, "model.unknown_fallback.compaction_keep_recent_estimated_tokens")
        || chars_eq_str(&k, "model.unknown_fallback.runtime_max_output_tokens")
        || chars_eq_str(&k, "runtime.max_output_tokens") || chars_eq_str(
        &k,
        "runtime.default_tool_output_tokens",
    ) || chars_eq_str(&k, "runtime.max_tool_output_tokens") || chars_eq_str(
        &k,
        "runtime.disable_provider_fallback",
    ) || has_prefix_str(&k, "providers.") || has_prefix_str(&k, "agent_templates.")
        || has_prefix_str(&k, "web.")
}

/// The reason recorded when a key cannot change at runtime.
pub open spec fn unsupported_key_reason() -> Seq<char> {
    "unsupported or startup-only config key"@
}

/// The reason recorded when an update carries neither a value nor `unset`.
pub open spec fn missing_value_reason(key: Seq<char>) -> Seq<char> {
    "runtime config update for "@ + key + " requires value or unset=true"@
}

/// The result for an update that is rejected before it is applied to the
/// candidate config: keys that cannot change at runtime, and updates with
/// neither a value nor `unset`. `None` means the update is applied.
pub fn runtime_config_precheck(key: &String, unset: bool, has_value: bool) -> (r: Option<RuntimeConfigUpdateResult>)
    ensures
        !runtime_mutable_key(key@) ==> (r matches Some(res) && res.key@ == key@ && res.effect
            == RuntimeConfigUpdateEffect::Rejected && res.reason@ == unsupported_key_reason()),
        runtime_mutable_key(key@) && !unset && !has_value ==> (r matches Some(res) && res.key@
            == key@ && res.effect == RuntimeConfigUpdateEffect::Rejected && res.reason@
            == missing_value_reason(key@)),
        runtime_mutable_key(key@) && (unset || has_value) ==> r is None,
{
    if !is_runtime_mutable_config_key(key.as_str()) {
        return Some(
            RuntimeConfigUpdateResult {
                key: key.clone(),
                effect: RuntimeConfigUpdateEffect::Rejected,
                reason: String::from_str("unsupported or startup-only config key"),
            },
        );
    }
    if !unset && !has_value {
        let mut reason = String::from_str("runtime config update for ");
        push_str(&mut reason, key.as_str());
        push_str(&mut reason, " requires value or unset=true");
        return Some(
            RuntimeConfigUpdateResult {
                key: key.clone(),
                effect: RuntimeConfigUpdateEffect::Rejected,
                reason,
            },
        );
    }
    None
}

/// The reason recorded for an update persisted but not yet live.
pub open spec fn persisted_reason() -> Seq<char> {
    "persisted in config.json; the running host keeps its current effective config until restart/reload support is added"@
}

/// The result of applying an update to the candidate config: accepted
/// pending restart, or rejected with the apply error.
pub fn runtime_config_apply_result(key: String, applied: Result<(), String>) -> (r: RuntimeConfigUpdateResult)
    ensures
        r.key == key,
        match applied {
            Ok(()) => r.effect == RuntimeConfigUpdateEffect::AcceptedRequiresRestart && r.reason@
                == persisted_reason(),
            Err(e) => r.effect == RuntimeConfigUpdateEffect::Rejected && r.reason == e,
        },
{
    match applied {
        Ok(()) => RuntimeConfigUpdateResult {
            key,
            effect: RuntimeConfigUpdateEffect::AcceptedRequiresRestart,
            reason: String::from_str(
                "persisted in config.json; the running host keeps its current effective config until restart/reload support is added",
            ),
        },
        Err(e) => RuntimeConfigUpdateResult { key, effect: RuntimeConfigUpdateEffect::Rejected, reason: e },
    }
}

/// The reason of a result after its acceptance is withdrawn.
pub open spec fn withdrawn_reason(prefix: Seq<char>, old_reason: Seq<char>) -> Seq<char> {
    if old_reason.len() == 0 {
        prefix
    } else {
        prefix + ": "@ + old_reason
    }
}

/// `results` after every accepted-pending-restart result is turned into a
/// rejection with `reason` in front of its old reason.
pub open spec fn withdrawn(old: RuntimeConfigUpdateResult, new: RuntimeConfigUpdateResult, reason: Seq<char>) -> bool {
    if old.effect == RuntimeConfigUpdateEffect::AcceptedRequiresRestart {
        &&& new.key == old.key
        &&& new.effect == RuntimeConfigUpdateEffect::Rejected
        &&& new.reason@ == withdrawn_reason(reason, old.reason@)
    } else {
        new == old
    }
}

/// Turns every accepted-pending-restart result into a rejection, with
/// `reason` in front of its old reason; other results stay as they are.
pub fn reject_accepted_runtime_config_results(results: &mut Vec<RuntimeConfigUpdateResult>, reason: &str)
    ensures
        final(results)@.len() == old(results)@.len(),
        forall|i: int|
            0 <= i < old(results)@.len() ==> withdrawn(
                #[trigger] old(results)@[i],
                final(results)@[i],
                reason@,
            ),
{
    let ghost orig = results@;
    let mut i: usize = 0;
    while i < results.len()
        invariant
            i <= results@.len() == orig.len(),
            orig == old(results)@,
            forall|j: int| 0 <= j < i ==> withdrawn(#[trigger] orig[j], results@[j], reason@),
            forall|j: int| i <= j < orig.len() ==> results@[j] == orig[j],
        decreases results.len() - i,
    {
        if results[i].effect == RuntimeConfigUpdateEffect::AcceptedRequiresRestart {
            let old_reason = chars_of(results[i].reason.as_str());
            let mut new_reason = String::from_str(reason);
            if old_reason.len() != 0 {
                push_str(&mut new_reason, ": ");
                push_all(&mut new_reason, &old_reason);
            }
            let key = results[i].key.clone();
            results.set(
                i,
                RuntimeConfigUpdateResult {
                    key,
                    effect: RuntimeConfigUpdateEffect::Rejected,
                    reason: new_reason,
                },
            );
        }
        i = i + 1;
    }
}

/// Whether some result has the given effect.
pub open spec fn any_effect(results: Seq<RuntimeConfigUpdateResult>, effect: RuntimeConfigUpdateEffect) -> bool {
    exists|i: int| 0 <= i < results.len() && #[trigger] results[i].effect == effect
}

fn has_effect(results: &Vec<RuntimeConfigUpdateResult>, effect: RuntimeConfigUpdateEffect) -> (b: bool)
    ensures
        b == any_effect(results@, effect),
{
    let mut i: usize = 0;
    while i < results.len()
        invariant
            i <= results@.len(),
            forall|j: int| 0 <= j < i ==> #[trigger] results@[j].effect != effect,
        decreases results.len() - i,
    {
        if results[i].effect == effect {
            return true;
        }
        i = i + 1;
    }
    false
}

/// The reason given to accepted updates when another update of the batch
/// was rejected.
pub open spec fn batch_rejected_reason() -> Seq<char> {
    "batch rejected; no runtime config updates were persisted"@
}

/// The reason given to accepted updates when the updated config is invalid.
pub open spec fn invalid_config_reason(error: Seq<char>) -> Seq<char> {
    "updated config is invalid: "@ + error
}

/// Settles a batch of config update results: a rejection anywhere, or an
/// invalid resulting config (`validation_error`), withdraws every
/// acceptance. Returns whether the batch changes the config.
pub fn settle_runtime_config_batch(
    results: &mut Vec<RuntimeConfigUpdateResult>,
    validation_error: Option<String>,
) -> (changed: bool)
    ensures
        final(results)@.len() == old(results)@.len(),
        any_effect(old(results)@, RuntimeConfigUpdateEffect::Rejected) ==> forall|i: int|
            0 <= i < old(results)@.len() ==> withdrawn(
                #[trigger] old(results)@[i],
                final(results)@[i],
                batch_rejected_reason(),
            ),
        !any_effect(old(results)@, RuntimeConfigUpdateEffect::Rejected) ==> match validation_error {
            Some(e) => forall|i: int|
                0 <= i < old(results)@.len() ==> withdrawn(
                    #[trigger] old(results)@[i],
                    final(results)@[i],
                    invalid_config_reason(e@),
                ),
            None => final(results)@ == old(results)@,
        },
        changed == any_effect(final(results)@, RuntimeConfigUpdateEffect::AcceptedRequiresRestart),
        changed ==> forall|i: int|
            0 <= i < final(results)@.len() ==> (#[trigger] final(results)@[i]).effect
                != RuntimeConfigUpdateEffect::Rejected,
{
    let ghost orig = results@;
    if has_effect(results, RuntimeConfigUpdateEffect::Rejected) {
        reject_accepted_runtime_config_results(
            results,
            "batch rejected; no runtime config updates were persisted",
        );
    } else {
        match validation_error {
            Some(e) => {
                let mut reason = String::from_str("updated config is invalid: ");
                push_str(&mut reason, e.as_str());
                reject_accepted_runtime_config_results(results, reason.as_str());
            },
            None => {},
        }
    }
    let changed = has_effect(results, RuntimeConfigUpdateEffect::AcceptedRequiresRestart);
    proof {
        if changed {
            let k = choose|k: int|
                0 <= k < results@.len() && #[trigger] results@[k].effect
                    == RuntimeConfigUpdateEffect::AcceptedRequiresRestart;
            assert(withdrawn(orig[k], results@[k], batch_rejected_reason()) ==> orig[k].effect
                != RuntimeConfigUpdateEffect::AcceptedRequiresRestart);
            assert forall|i: int|
                0 <= i < results@.len() implies (#[trigger] results@[i]).effect
                != RuntimeConfigUpdateEffect::Rejected by {
                if any_effect(orig, RuntimeConfigUpdateEffect::Rejected) {
                    assert(withdrawn(orig[k], results@[k], batch_rejected_reason()));
                } else {
                    assert(orig[i].effect != RuntimeConfigUpdateEffect::Rejected);
                    match validation_error {
                        Some(e) => {
                            assert(withdrawn(orig[k], results@[k], invalid_config_reason(e@)));
                        },
                        None => {},
                    }
                }
            }
        }
    }
    changed
}


/// The reason recorded when a saved update took effect at once.
pub open spec fn hot_reload_reason() -> Seq<char> {
    "applied via hot-reload"@
}

/// The reason recorded when a saved update could not be hot-reloaded.
pub open spec fn hot_reload_failed_reason(error: Seq<char>) -> Seq<char> {
    "persisted in config.json, but hot-reload failed: "@ + error
}

/// How one result reads after the saved config was reloaded (`reload_error`
/// is `None`) or failed to reload.
pub open spec fn reloaded(old: RuntimeConfigUpdateResult, new: RuntimeConfigUpdateResult, reload_error: Option<Seq<char>>) -> bool {
    if old.effect == RuntimeConfigUpdateEffect::AcceptedRequiresRestart {
        &&& new.key == old.key
        &&& match reload_error {
            None => new.effect == RuntimeConfigUpdateEffect::AcceptedReloaded && new.reason@
                == hot_reload_reason(),
            Some(e) => new.effect == RuntimeConfigUpdateEffect::AcceptedRequiresRestart
                && new.reason@ == hot_reload_failed_reason(e),
        }
    } else {
        new == old
    }
}

/// Records the outcome of hot-reloading a saved config on every accepted
/// result: reloaded on success, still pending restart (with the error) on
/// failure. Other results stay as they are.
pub fn apply_config_reload_outcome(results: &mut Vec<RuntimeConfigUpdateResult>, reload_error: Option<String>)
    ensures
        final(results)@.len() == old(results)@.len(),
        forall|i: int|
            0 <= i < old(results)@.len() ==> reloaded(
                #[trigger] old(results)@[i],
                final(results)@[i],
                opt_view(reload_error),
            ),
{
    let ghost orig = results@;
    let mut i: usize = 0;
    while i < results.len()
        invariant
            i <= results@.len() == orig.len(),
            orig == old(results)@,
            forall|j: int| 0 <= j < i ==> reloaded(#[trigger] orig[j], results@[j], opt_view(reload_error)),
            forall|j: int| i <= j < orig.len() ==> results@[j] == orig[j],
        decreases results.len() - i,
    {
        if results[i].effect == RuntimeConfigUpdateEffect::AcceptedRequiresRestart {
            let key = results[i].key.clone();
            let updated = match &reload_error {
                None => RuntimeConfigUpdateResult {
                    key,
                    effect: RuntimeConfigUpdateEffect::AcceptedReloaded,
                    reason: String::from_str("applied via hot-reload"),
                },
                Some(e) => {
                    let mut reason = String::from_str("persisted in config.json, but hot-reload failed: ");
                    push_str(&mut reason, e.as_str());
                    RuntimeConfigUpdateResult {
                        key,
                        effect: RuntimeConfigUpdateEffect::AcceptedRequiresRestart,
                        reason,
                    }
                },
            };
            results.set(i, updated);
        }
        i = i + 1;
    }
}

// ------------------------------------------------------- prompt attachments

/// `/` and `\`, the separators a client may put in an attachment name.
pub open spec fn path_sep_pred() -> spec_fn(char) -> bool {
    |c: char| c == '/' || c == '\\'
}

pub open spec fn dot_pred() -> spec_fn(char) -> bool {
    |c: char| c == '.'
}

/// The last component of `name` (`name.rsplit(['/', '\\']).next()`).
pub open spec fn base_name(name: Seq<char>) -> Seq<char> {
    name.skip(rfind_before(name, path_sep_pred(), name.len() as int) + 1)
}

/// `str::rsplit_once('.')`: the text before and after the last dot.
pub open spec fn rsplit_dot(s: Seq<char>) -> Option<(Seq<char>, Seq<char>)> {
    let k = rfind_before(s, dot_pred(), s.len() as int);
    if k >= 0 {
        Some((s.take(k), s.skip(k + 1)))
    } else {
        None
    }
}

/// A character of a stored file name: ASCII letters, digits, `-` and `_`
/// stay, anything else becomes `-`.
pub open spec fn stem_char(c: char) -> char {
    if is_ascii_alnum(c) || c == '-' || c == '_' {
        c
    } else {
        '-'
    }
}

/// `str::trim_matches('-')`.
pub open spec fn trim_dashes(s: Seq<char>) -> Seq<char>
    decreases s.len(),
{
    if s.len() > 0 && s[0] == '-' {
        trim_dashes(s.drop_first())
    } else if s.len() > 0 && s.last() == '-' {
        trim_dashes(s.drop_last())
    } else {
        s
    }
}

/// Longest stem kept in a stored file name.
pub const MAX_MEDIA_STEM_CHARS: usize = 48;

/// The stem of a stored attachment file name derived from the client's
/// name: the last path component without its extension, with unsafe
/// characters replaced, dashes trimmed and at most 48 characters; `None`
/// when nothing is left.
pub open spec fn safe_stem(name: Seq<char>) -> Option<Seq<char>> {
    let base = base_name(name);
    let stem = match rsplit_dot(base) {
        Some(parts) => parts.0,
        None => base,
    };
    let mapped = Seq::new(stem.len(), |i: int| stem_char(stem[i]));
    let t = trim_dashes(mapped);
    let safe = if t.len() > MAX_MEDIA_STEM_CHARS { t.take(MAX_MEDIA_STEM_CHARS as int) } else { t };
    if safe.len() == 0 {
        None
    } else {
        Some(safe)
    }
}

/// Longest extension taken from a client's file name.
pub const MAX_MEDIA_EXTENSION_CHARS: usize = 16;

/// The extension of the client's file name: the trimmed text after the
/// last dot of the last path component, when it is 1 to 16 ASCII letters
/// and digits.
pub open spec fn safe_extension(name: Seq<char>) -> Option<Seq<char>> {
    match rsplit_dot(base_name(name)) {
        None => None,
        Some(parts) => {
            let e = trim(parts.1);
            if e.len() == 0 || e.len() > MAX_MEDIA_EXTENSION_CHARS || !(forall|i: int|
                0 <= i < e.len() ==> is_ascii_alnum(#[trigger] e[i])) {
                None
            } else {
                Some(e)
            }
        },
    }
}

/// Index just after the last path separator of `v` (0 when there is none).
fn after_last_path_sep(v: &Vec<char>) -> (r: usize)
    ensures
        r == rfind_before(v@, path_sep_pred(), v@.len() as int) + 1,
{
    let mut i = v.len();
    while i > 0 && !(v[i - 1] == '/' || v[i - 1] == '\\')
        invariant
            i <= v@.len(),
            rfind_before(v@, path_sep_pred(), v@.len() as int) == rfind_before(
                v@,
                path_sep_pred(),
                i as int,
            ),
        decreases i,
    {
        i = i - 1;
    }
    i
}

/// Index just after the last dot of `v` (0 when there is none).
fn after_last_dot(v: &Vec<char>) -> (r: usize)
    ensures
        r == rfind_before(v@, dot_pred(), v@.len() as int) + 1,
{
    let mut i = v.len();
    while i > 0 && v[i - 1] != '.'
        invariant
            i <= v@.len(),
            rfind_before(v@, dot_pred(), v@.len() as int) == rfind_before(
                v@,
                dot_pred(),
                i as int,
            ),
        decreases i,
    {
        i = i - 1;
    }
    i
}

/// The last path component of `name`, as characters.
fn base_name_chars(name: &str) -> (r: Vec<char>)
    ensures
        r@ == base_name(name@),
{
    let v = chars_of(name);
    let start = after_last_path_sep(&v);
    proof {
        lemma_rfind_before_bounds(v@, path_sep_pred(), v@.len() as int);
    }
    let r = slice_chars(&v, start, v.len());
    assert(r@ =~= base_name(name@));
    r
}

/// `str::trim_matches('-')`, on characters.
fn trim_dashes_chars(v: &Vec<char>) -> (r: Vec<char>)
    ensures
        r@ == trim_dashes(v@),
{
    let n = v.len();
    let mut a: usize = 0;
    assert(v@.subrange(0, n as int) =~= v@);
    while a < n && v[a] == '-'
        invariant
            a <= n == v@.len(),
            trim_dashes(v@) == trim_dashes(v@.subrange(a as int, n as int)),
        decreases n - a,
    {
        assert(v@.subrange(a as int, n as int).drop_first() =~= v@.subrange(a + 1, n as int));
        a = a + 1;
    }
    let mut b: usize = n;
    while b > a && v[b - 1] == '-'
        invariant
            a <= b <= n == v@.len(),
            a < n ==> v@[a as int] != '-',
            trim_dashes(v@) == trim_dashes(v@.subrange(a as int, b as int)),
        decreases b,
    {
        let ghost s = v@.subrange(a as int, b as int);
        assert(s.drop_last() =~= v@.subrange(a as int, b - 1));
        assert(s[0] != '-');
        b = b - 1;
    }
    slice_chars(v, a, b)
}

/// The stem used to name a stored attachment (`None` when the client gave
/// no usable name).
pub fn safe_media_stem(name: Option<&str>) -> (r: Option<String>)
    ensures
        match name {
            None => r is None,
            Some(n) => match safe_stem(n@) {
                None => r is None,
                Some(st) => r matches Some(x) && x@ == st,
            },
        },
{
    let name = match name {
        None => return None,
        Some(n) => n,
    };
    let base = base_name_chars(name);
    let k = after_last_dot(&base);
    proof {
        lemma_rfind_before_bounds(base@, dot_pred(), base@.len() as int);
    }
    let stem = if k > 0 {
        slice_chars(&base, 0, k - 1)
    } else {
        slice_chars(&base, 0, base.len())
    };
    let ghost spec_stem = match rsplit_dot(base@) {
        Some(parts) => parts.0,
        None => base@,
    };
    assert(stem@ =~= spec_stem);
    let mut mapped: Vec<char> = Vec::new();
    let mut i: usize = 0;
    while i < stem.len()
        invariant
            i <= stem@.len(),
            mapped@ == Seq::new(i as nat, |j: int| stem_char(stem@[j])),
        decreases stem.len() - i,
    {
        let c = stem[i];
        let m = if is_ascii_alnum_exec(c) || c == '-' || c == '_' {
            c
        } else {
            '-'
        };
        mapped.push(m);
        i = i + 1;
        assert(mapped@ =~= Seq::new(i as nat, |j: int| stem_char(stem@[j])));
    }
    let t = trim_dashes_chars(&mapped);
    let safe = if t.len() > MAX_MEDIA_STEM_CHARS {
        slice_chars(&t, 0, MAX_MEDIA_STEM_CHARS)
    } else {
        slice_chars(&t, 0, t.len())
    };
    assert(t@.subrange(0, t@.len() as int) =~= t@);
    if safe.len() == 0 {
        None
    } else {
        Some(string_from_chars(&safe))
    }
}

/// Whether every character of `v` is an ASCII letter or digit.
fn all_ascii_alnum(v: &Vec<char>) -> (b: bool)
    ensures
        b == (forall|j: int| 0 <= j < v@.len() ==> is_ascii_alnum(#[trigger] v@[j])),
{
    let mut i: usize = 0;
    while i < v.len()
        invariant
            i <= v@.len(),
            forall|j: int| 0 <= j < i ==> is_ascii_alnum(#[trigger] v@[j]),
        decreases v.len() - i,
    {
        if !is_ascii_alnum_exec(v[i]) {
            assert(!is_ascii_alnum(v@[i as int]));
            return false;
        }
        i = i + 1;
    }
    true
}

/// The extension of the client's file name, when it is a plain one.
pub fn safe_media_extension(name: Option<&str>) -> (r: Option<String>)
    ensures
        match name {
            None => r is None,
            Some(n) => match safe_extension(n@) {
                None => r is None,
                Some(e) => r matches Some(x) && x@ == e,
            },
        },
{
    let name = match name {
        None => return None,
        Some(n) => n,
    };
    let base = base_name_chars(name);
    let k = after_last_dot(&base);
    proof {
        lemma_rfind_before_bounds(base@, dot_pred(), base@.len() as int);
    }
    if k == 0 {
        return None;
    }
    let after = slice_chars(&base, k, base.len());
    let e = trim_chars(&after);
    if e.len() == 0 || e.len() > MAX_MEDIA_EXTENSION_CHARS {
        return None;
    }
    assert(after@ =~= base@.skip(k as int));
    if !all_ascii_alnum(&e) {
        return None;
    }
    Some(string_from_chars(&e))
}


/// File extension for a supported image media type.
pub open spec fn image_media_extension(media_type: Seq<char>) -> Option<Seq<char>> {
    if media_type == "image/png"@ {
        Some("png"@)
    } else if media_type == "image/jpeg"@ || media_type == "image/jpg"@ {
        Some("jpg"@)
    } else if media_type == "image/gif"@ {
        Some("gif"@)
    } else if media_type == "image/webp"@ {
        Some("webp"@)
    } else {
        None
    }
}

/// The file extension for an image attachment's media type, `None` when
/// the type is not a supported image type.
pub fn image_extension_for_media_type(media_type: &str) -> (r: Option<&'static str>)
    ensures
        match image_media_extension(media_type@) {
            None => r is None,
            Some(e) => r matches Some(x) && x@ == e,
        },
{
    let v = chars_of(media_type);
    if chars_eq_str(&v, "image/png") {
        Some("png")
    } else if chars_eq_str(&v, "image/jpeg") || chars_eq_str(&v, "image/jpg") {
        Some("jpg")
    } else if chars_eq_str(&v, "image/gif") {
        Some("gif")
    } else if chars_eq_str(&v, "image/webp") {
        Some("webp")
    } else {
        None
    }
}

/// The media type without parameters: the trimmed text before the first `;`.
pub open spec fn media_essence(media_type: Seq<char>) -> Seq<char> {
    trim(before_first(media_type, ';'))
}

/// File extension for a known document media type (parameters ignored).
pub open spec fn file_media_extension(media_type: Seq<char>) -> Option<Seq<char>> {
    let t = media_essence(media_type);
    if t == "application/pdf"@ {
        Some("pdf"@)
    } else if t == "text/plain"@ {
        Some("txt"@)
    } else if t == "text/markdown"@ || t == "text/x-markdown"@ {
        Some("md"@)
    } else if t == "application/json"@ || t == "application/ld+json"@ {
        Some("json"@)
    } else if t == "text/csv"@ {
        Some("csv"@)
    } else if t == "text/html"@ {
        Some("html"@)
    } else if t == "application/javascript"@ || t == "text/javascript"@ {
        Some("js"@)
    } else if t == "application/typescript"@ || t == "text/typescript"@ {
        Some("ts"@)
    } else if t == "text/x-rust"@ {
        Some("rs"@)
    } else if t == "text/x-python"@ || t == "application/x-python-code"@ {
        Some("py"@)
    } else if t == "application/xml"@ || t == "text/xml"@ {
        Some("xml"@)
    } else if t == "application/zip"@ {
        Some("zip"@)
    } else if t == "application/gzip"@ {
        Some("gz"@)
    } else {
        None
    }
}

/// The file extension for a document media type, parameters ignored.
pub fn file_extension_for_media_type(media_type: &str) -> (r: Option<&'static str>)
    ensures
        match file_media_extension(media_type@) {
            None => r is None,
            Some(e) => r matches Some(x) && x@ == e,
        },
{
    let v = chars_of(media_type);
    let semi = find_char(&v, ';');
    let head = slice_chars(&v, 0, semi);
    let t = trim_chars(&head);
    assert(head@ =~= before_first(media_type@, ';'));
    if chars_eq_str(&t, "application/pdf") {
        Some("pdf")
    } else if chars_eq_str(&t, "text/plain") {
        Some("txt")
    } else if chars_eq_str(&t, "text/markdown") || chars_eq_str(&t, "text/x-markdown") {
        Some("md")
    } else if chars_eq_str(&t, "application/json") || chars_eq_str(&t, "application/ld+json") {
        Some("json")
    } else if chars_eq_str(&t, "text/csv") {
        Some("csv")
    } else if chars_eq_str(&t, "text/html") {
        Some("html")
    } else if chars_eq_str(&t, "application/javascript") || chars_eq_str(&t, "text/javascript") {
        Some("js")
    } else if chars_eq_str(&t, "application/typescript") || chars_eq_str(&t, "text/typescript") {
        Some("ts")
    } else if chars_eq_str(&t, "text/x-rust") {
        Some("rs")
    } else if chars_eq_str(&t, "text/x-python") || chars_eq_str(&t, "application/x-python-code") {
        Some("py")
    } else if chars_eq_str(&t, "application/xml") || chars_eq_str(&t, "text/xml") {
        Some("xml")
    } else if chars_eq_str(&t, "application/zip") {
        Some("zip")
    } else if chars_eq_str(&t, "application/gzip") {
        Some("gz")
    } else {
        None
    }
}

/// The extension a stored file attachment gets: the client's own
/// extension in lowercase, else the one its media type implies, else `bin`.
pub open spec fn attachment_extension(name: Option<Seq<char>>, media_type: Seq<char>) -> Seq<char> {
    let from_name = match name {
        Some(n) => safe_extension(n),
        None => None,
    };
    match from_name {
        Some(e) => ascii_lower_seq(e),
        None => match file_media_extension(media_type) {
            Some(e) => e,
            None => "bin"@,
        },
    }
}

pub open spec fn opt_str_view(name: Option<&str>) -> Option<Seq<char>> {
    match name {
        Some(n) => Some(n@),
        None => None,
    }
}

/// The extension for a stored file attachment.
pub fn file_extension_for_attachment(name: Option<&str>, media_type: &str) -> (r: String)
    ensures
        r@ == attachment_extension(opt_str_view(name), media_type@),
{
    match safe_media_extension(name) {
        Some(e) => {
            let v = chars_of(e.as_str());
            let lower = ascii_lower_chars(&v);
            string_from_chars(&lower)
        },
        None => match file_extension_for_media_type(media_type) {
            Some(e) => String::from_str(e),
            None => String::from_str("bin"),
        },
    }
}

/// Characters dropped from a name shown as link text.
pub open spec fn alt_forbidden(c: char) -> bool {
    c == '[' || c == ']' || c == '(' || c == ')' || c == '\n' || c == '\r'
}

/// `s` without the characters that would break Markdown link text.
pub open spec fn strip_alt_forbidden(s: Seq<char>) -> Seq<char>
    decreases s.len(),
{
    if s.len() == 0 {
        s
    } else if alt_forbidden(s.last()) {
        strip_alt_forbidden(s.drop_last())
    } else {
        strip_alt_forbidden(s.drop_last()).push(s.last())
    }
}

/// The link text for an attachment named `name`, `None` when nothing but
/// whitespace is left of it.
pub open spec fn alt_text(name: Seq<char>) -> Option<Seq<char>> {
    let t = trim(strip_alt_forbidden(name));
    if t.len() == 0 {
        None
    } else {
        Some(t)
    }
}

/// The link text for an attachment, from the client's name.
pub fn markdown_alt_text(name: Option<&str>) -> (r: Option<String>)
    ensures
        match name {
            None => r is None,
            Some(n) => match alt_text(n@) {
                None => r is None,
                Some(t) => r matches Some(x) && x@ == t,
            },
        },
{
    let name = match name {
        None => return None,
        Some(n) => n,
    };
    let v = chars_of(name);
    let mut kept: Vec<char> = Vec::new();
    let mut i: usize = 0;
    assert(v@.take(0) =~= Seq::<char>::empty());
    while i < v.len()
        invariant
            i <= v@.len(),
            kept@ == strip_alt_forbidden(v@.take(i as int)),
        decreases v.len() - i,
    {
        let c = v[i];
        assert(v@.take(i + 1).drop_last() =~= v@.take(i as int));
        if !(c == '[' || c == ']' || c == '(' || c == ')' || c == '\n' || c == '\r') {
            kept.push(c);
        }
        i = i + 1;
    }
    assert(v@.take(v@.len() as int) =~= v@);
    let t = trim_chars(&kept);
    if t.len() == 0 {
        None
    } else {
        Some(string_from_chars(&t))
    }
}

/// `text` followed by a line break, unless it is empty or already ends
/// with one.
pub open spec fn with_separator(text: Seq<char>) -> Seq<char> {
    if text.len() > 0 && text.last() != '\n' {
        text.push('\n')
    } else {
        text
    }
}

/// Puts a line break after non-empty text that does not end with one, so
/// that an attachment link starts on a line of its own.
pub fn append_attachment_separator(text: &mut String)
    ensures
        final(text)@ == with_separator(old(text)@),
{
    let v = chars_of(text.as_str());
    if v.len() > 0 && v[v.len() - 1] != '\n' {
        text.push('\n');
    }
}


/// "`label` attachment `position`", the subject of attachment errors.
pub open spec fn attachment_subject(label: Seq<char>, position: nat) -> Seq<char> {
    label + " attachment "@ + decimal(position)
}

/// What decoding an attachment yields: its bytes, or the error message
/// for undecodable, empty or oversized content.
pub open spec fn decoded_attachment(label: Seq<char>, position: nat, data: Seq<u8>, max_bytes: nat) -> Result<Seq<u8>, Seq<char>> {
    checked_attachment(label, position, base64_standard_decode(data), max_bytes)
}

/// The content of an attachment once decoded (`None` when its base64
/// could not be decoded): refused when undecodable, empty or over
/// `max_bytes`.
pub open spec fn checked_attachment(label: Seq<char>, position: nat, decoded: Option<Seq<u8>>, max_bytes: nat) -> Result<Seq<u8>, Seq<char>> {
    match decoded {
        None => Err("decode "@ + attachment_subject(label, position)),
        Some(bytes) => if bytes.len() == 0 {
            Err(attachment_subject(label, position) + " is empty"@)
        } else if bytes.len() > max_bytes {
            Err(attachment_subject(label, position) + " exceeds "@ + decimal(max_bytes) + " bytes"@)
        } else {
            Ok(bytes)
        },
    }
}

pub open spec fn opt_bytes_view(o: Option<Vec<u8>>) -> Option<Seq<u8>> {
    match o {
        Some(v) => Some(v@),
        None => None,
    }
}

pub open spec fn result_view(r: Result<Vec<u8>, String>) -> Result<Seq<u8>, Seq<char>> {
    match r {
        Ok(v) => Ok(v@),
        Err(e) => Err(e@),
    }
}

/// Checks the decoded content of the attachment at `position` (counted
/// from 1): it must have decoded, and be neither empty nor over
/// `max_bytes`.
pub fn check_decoded_attachment(label: &str, position: usize, decoded: Option<Vec<u8>>, max_bytes: u64) -> (r: Result<Vec<u8>, String>)
    ensures
        result_view(r) == checked_attachment(label@, position as nat, opt_bytes_view(decoded), max_bytes as nat),
{
    let mut subject = String::from_str(label);
    push_str(&mut subject, " attachment ");
    push_decimal(&mut subject, position as u64);
    match decoded {
        None => {
            let mut message = String::from_str("decode ");
            push_str(&mut message, subject.as_str());
            Err(message)
        },
        Some(bytes) => {
            if bytes.len() == 0 {
                push_str(&mut subject, " is empty");
                Err(subject)
            } else if bytes.len() as u64 > max_bytes {
                push_str(&mut subject, " exceeds ");
                push_decimal(&mut subject, max_bytes);
                push_str(&mut subject, " bytes");
                Err(subject)
            } else {
                Ok(bytes)
            }
        },
    }
}

/// Decodes the base64 content of the attachment at `position` (counted
/// from 1) and checks that it is neither empty nor over `max_bytes`.
pub fn decode_control_prompt_attachment(label: &str, position: usize, data_base64: &str, max_bytes: u64) -> (r: Result<Vec<u8>, String>)
    ensures
        result_view(r) == decoded_attachment(label@, position as nat, data_base64.spec_bytes(), max_bytes as nat),
{
    let decoded = base64_decode_standard(data_base64);
    check_decoded_attachment(label, position, decoded, max_bytes)
}

/// What preparing an attachment yields: its bytes and the extension of
/// the file it is stored in, or the error message.
pub open spec fn prepared_attachment(position: nat, attachment: ControlPromptAttachment) -> Result<(Seq<u8>, Seq<char>), Seq<char>> {
    match attachment {
        ControlPromptAttachment::Image(a) => match decoded_attachment(
            "image"@,
            position,
            encode_utf8(a.data_base64@),
            MAX_CONTROL_PROMPT_IMAGE_ATTACHMENT_BYTES as nat,
        ) {
            Err(e) => Err(e),
            Ok(bytes) => match image_media_extension(a.media_type@) {
                None => Err("unsupported image media type: "@ + a.media_type@),
                Some(ext) => Ok((bytes, ext)),
            },
        },
        ControlPromptAttachment::File(a) => match decoded_attachment(
            "file"@,
            position,
            encode_utf8(a.data_base64@),
            MAX_CONTROL_PROMPT_FILE_ATTACHMENT_BYTES as nat,
        ) {
            Err(e) => Err(e),
            Ok(bytes) => Ok((bytes, attachment_extension(opt_view(a.name), a.media_type@))),
        },
    }
}


/// Decodes and checks the attachment at `position` (counted from 1) and
/// picks the extension of the file it is stored in.
pub fn prepare_control_prompt_attachment(position: usize, attachment: &ControlPromptAttachment) -> (r: Result<(Vec<u8>, String), String>)
    ensures
        match (r, prepared_attachment(position as nat, *attachment)) {
            (Ok((bytes, ext)), Ok((b, e))) => bytes@ == b && ext@ == e,
            (Err(msg), Err(m)) => msg@ == m,
            _ => false,
        },
{
    match attachment {
        ControlPromptAttachment::Image(a) => {
            let bytes = match decode_control_prompt_attachment(
                "image",
                position,
                a.data_base64.as_str(),
                MAX_CONTROL_PROMPT_IMAGE_ATTACHMENT_BYTES,
            ) {
                Ok(b) => b,
                Err(e) => return Err(e),
            };
            match image_extension_for_media_type(a.media_type.as_str()) {
                Some(ext) => Ok((bytes, String::from_str(ext))),
                None => {
                    let mut message = String::from_str("unsupported image media type: ");
                    push_str(&mut message, a.media_type.as_str());
                    Err(message)
                },
            }
        },
        ControlPromptAttachment::File(a) => {
            let bytes = match decode_control_prompt_attachment(
                "file",
                position,
                a.data_base64.as_str(),
                MAX_CONTROL_PROMPT_FILE_ATTACHMENT_BYTES,
            ) {
                Ok(b) => b,
                Err(e) => return Err(e),
            };
            let name = match &a.name {
                Some(n) => Some(n.as_str()),
                None => None,
            };
            let ext = file_extension_for_attachment(name, a.media_type.as_str());
            Ok((bytes, ext))
        },
    }
}


/// The workspace id of an agent's home directory.
pub open spec fn agent_home_workspace(agent_id: Seq<char>) -> Seq<char> {
    "agent_home:"@ + agent_id
}

/// The workspace id of an agent's home directory.
pub fn agent_home_workspace_id(agent_id: &str) -> (r: String)
    ensures
        r@ == agent_home_workspace(agent_id@),
{
    let mut r = String::from_str("agent_home:");
    push_str(&mut r, agent_id);
    r
}

/// The name under which an attachment is stored in the media inbox:
/// `{timestamp}-{position}-{stem}.{extension}`, the stem falling back to
/// the label when the client's name has none.
pub open spec fn stored_attachment_name(
    timestamp: Seq<char>,
    label: Seq<char>,
    position: nat,
    name: Option<Seq<char>>,
    extension: Seq<char>,
) -> Seq<char> {
    let stem = match name {
        Some(n) => match safe_stem(n) {
            Some(st) => st,
            None => label,
        },
        None => label,
    };
    timestamp + "-"@ + decimal(position) + "-"@ + stem + "."@ + extension
}

/// The file name for the attachment at `position`, given the time stamp
/// of the upload.
pub fn control_prompt_attachment_file_name(
    timestamp: &str,
    label: &str,
    position: usize,
    name: Option<&str>,
    extension: &str,
) -> (r: String)
    ensures
        r@ == stored_attachment_name(timestamp@, label@, position as nat, opt_str_view(name), extension@),
{
    let stem = match safe_media_stem(name) {
        Some(st) => st,
        None => String::from_str(label),
    };
    let mut r = String::from_str(timestamp);
    push_str(&mut r, "-");
    push_decimal(&mut r, position as u64);
    push_str(&mut r, "-");
    push_str(&mut r, stem.as_str());
    push_str(&mut r, ".");
    push_str(&mut r, extension);
    r
}

/// The Markdown link to a stored attachment: an image preview for images,
/// a plain link for files, labelled with the client's name or with
/// "image N" / "file N".
pub open spec fn attachment_link(
    image: bool,
    position: nat,
    name: Option<Seq<char>>,
    agent_id: Seq<char>,
    file_name: Seq<u8>,
) -> Seq<char> {
    let label = if image { "image"@ } else { "file"@ };
    let fallback = label + " "@ + decimal(position);
    let text = match name {
        Some(n) => match alt_text(n) {
            Some(t) => t,
            None => fallback,
        },
        None => fallback,
    };
    "\n"@ + (if image { "!["@ } else { "["@ }) + text + "](workspace://"@ + agent_home_workspace(agent_id)
        + "/media/inbox/"@ + percent_encode_non_alnum(file_name) + ")"@
}

/// Appends the link to a stored attachment to the prompt text, on a line
/// of its own.
pub fn append_control_prompt_attachment_link(
    text: &mut String,
    image: bool,
    position: usize,
    name: Option<&str>,
    agent_id: &str,
    file_name: &str,
)
    ensures
        final(text)@ == with_separator(old(text)@) + attachment_link(
            image,
            position as nat,
            opt_str_view(name),
            agent_id@,
            file_name.spec_bytes(),
        ),
{
    append_attachment_separator(text);
    let label = match markdown_alt_text(name) {
        Some(t) => t,
        None => {
            let mut t = if image { String::from_str("image") } else { String::from_str("file") };
            push_str(&mut t, " ");
            push_decimal(&mut t, position as u64);
            t
        },
    };
    let mut link = String::from_str("\n");
    if image {
        push_str(&mut link, "![");
    } else {
        push_str(&mut link, "[");
    }
    push_str(&mut link, label.as_str());
    push_str(&mut link, "](workspace://");
    let workspace = agent_home_workspace_id(agent_id);
    push_str(&mut link, workspace.as_str());
    push_str(&mut link, "/media/inbox/");
    let encoded = percent_encode_path_segment(file_name);
    push_str(&mut link, encoded.as_str());
    push_str(&mut link, ")");
    push_str(text, link.as_str());
}


/// A character allowed in the stem of a stored file name.
pub open spec fn stem_safe(c: char) -> bool {
    is_ascii_alnum(c) || c == '-' || c == '_'
}

proof fn lemma_trim_dashes_keeps(s: Seq<char>)
    requires
        forall|i: int| 0 <= i < s.len() ==> stem_safe(#[trigger] s[i]),
    ensures
        forall|i: int| 0 <= i < trim_dashes(s).len() ==> stem_safe(#[trigger] trim_dashes(s)[i]),
    decreases s.len(),
{
    if s.len() > 0 && s[0] == '-' {
        let d = s.drop_first();
        assert forall|i: int| 0 <= i < d.len() implies stem_safe(#[trigger] d[i]) by {
            assert(d[i] == s[i + 1]);
        }
        lemma_trim_dashes_keeps(d);
        assert(trim_dashes(s) == trim_dashes(d));
    } else if s.len() > 0 && s.last() == '-' {
        let d = s.drop_last();
        assert forall|i: int| 0 <= i < d.len() implies stem_safe(#[trigger] d[i]) by {
            assert(d[i] == s[i]);
        }
        lemma_trim_dashes_keeps(d);
        assert(trim_dashes(s) == trim_dashes(d));
    }
}

/// Whatever name a client gives an attachment, the stem of the stored file
/// holds only ASCII letters, digits, `-` and `_`, so the file cannot leave
/// the media inbox; the extension, when taken from the name, only letters
/// and digits.
pub proof fn stored_attachment_names_stay_in_the_inbox(name: Seq<char>)
    ensures
        safe_stem(name) matches Some(st) ==> st.len() > 0 && st.len() <= MAX_MEDIA_STEM_CHARS
            && forall|i: int| 0 <= i < st.len() ==> stem_safe(#[trigger] st[i]),
        safe_extension(name) matches Some(e) ==> forall|i: int|
            0 <= i < ascii_lower_seq(e).len() ==> is_ascii_alnum(#[trigger] ascii_lower_seq(e)[i]),
{
    let base = base_name(name);
    let stem = match rsplit_dot(base) {
        Some(parts) => parts.0,
        None => base,
    };
    let mapped = Seq::new(stem.len(), |i: int| stem_char(stem[i]));
    assert forall|i: int| 0 <= i < mapped.len() implies stem_safe(#[trigger] mapped[i]) by {}
    lemma_trim_dashes_keeps(mapped);
    let t = trim_dashes(mapped);
    if t.len() > MAX_MEDIA_STEM_CHARS {
        assert forall|i: int| 0 <= i < t.take(MAX_MEDIA_STEM_CHARS as int).len() implies stem_safe(
            #[trigger] t.take(MAX_MEDIA_STEM_CHARS as int)[i],
        ) by {
            assert(t.take(MAX_MEDIA_STEM_CHARS as int)[i] == t[i]);
        }
    }
    if let Some(e) = safe_extension(name) {
        assert forall|i: int| 0 <= i < ascii_lower_seq(e).len() implies is_ascii_alnum(
            #[trigger] ascii_lower_seq(e)[i],
        ) by {
            assert(is_ascii_alnum(e[i]));
        }
    }
}

// ------------------------------------------------------------------ wakes

/// A wake needs a reason that is not blank; a blank one is refused with
/// `403`.
pub fn check_wake_reason(reason: &str) -> (r: Result<(), crate::errors::HttpError>)
    ensures
        r is Ok <==> trim(reason@).len() != 0,
        r matches Err(e) ==> crate::errors::plain_error(
            e,
            crate::errors::STATUS_FORBIDDEN,
            "wake reason may not be empty"@,
        ),
{
    let v = chars_of(reason);
    let t = trim_chars(&v);
    if t.len() == 0 {
        Err(crate::errors::forbidden(String::from_str("wake reason may not be empty")))
    } else {
        Ok(())
    }
}

/// Whether `media_type` is one of the supported image types: PNG, JPEG
/// (also named `image/jpg`), GIF and WebP.
pub open spec fn supported_image_type(media_type: Seq<char>) -> bool {
    ||| media_type == "image/png"@
    ||| media_type == "image/jpeg"@
    ||| media_type == "image/jpg"@
    ||| media_type == "image/gif"@
    ||| media_type == "image/webp"@
}

/// The supported image types are PNG, JPEG (also named `image/jpg`), GIF
/// and WebP, stored as `.png`, `.jpg`, `.gif` and `.webp`; no other media
/// type has an image extension.
pub proof fn supported_image_types_and_their_extensions(media_type: Seq<char>)
    ensures
        media_type == "image/png"@ ==> image_media_extension(media_type) == Some("png"@),
        media_type == "image/jpeg"@ ==> image_media_extension(media_type) == Some("jpg"@),
        media_type == "image/jpg"@ ==> image_media_extension(media_type) == Some("jpg"@),
        media_type == "image/gif"@ ==> image_media_extension(media_type) == Some("gif"@),
        media_type == "image/webp"@ ==> image_media_extension(media_type) == Some("webp"@),
        image_media_extension(media_type) is Some <==> supported_image_type(media_type),
{
    reveal_strlit("image/png");
    reveal_strlit("image/jpeg");
    reveal_strlit("image/jpg");
    reveal_strlit("image/gif");
    reveal_strlit("image/webp");
    let png = "image/png"@;
    let jpeg = "image/jpeg"@;
    let jpg = "image/jpg"@;
    let gif = "image/gif"@;
    let webp = "image/webp"@;
    assert(jpg[6] != png[6] && jpeg.len() != png.len());
    assert(gif[6] != png[6] && gif[6] != jpg[6] && gif.len() != jpeg.len());
    assert(webp.len() != png.len() && webp[6] != jpeg[6] && webp.len() != jpg.len() && webp.len()
        != gif.len());
}

/// An image attachment whose content decodes within its limits is stored
/// exactly when its media type is a supported image type, under that
/// type's extension; any other media type refuses the prompt as an
/// unsupported image media type.
pub proof fn image_attachments_are_stored_under_their_type_extension(
    position: nat,
    a: crate::types::ControlPromptImageAttachment,
)
    requires
        decoded_attachment(
            "image"@,
            position,
            encode_utf8(a.data_base64@),
            MAX_CONTROL_PROMPT_IMAGE_ATTACHMENT_BYTES as nat,
        ) is Ok,
    ensures
        prepared_attachment(position, ControlPromptAttachment::Image(a)) is Ok <==> supported_image_type(
            a.media_type@,
        ),
        a.media_type@ == "image/gif"@ ==> (prepared_attachment(position, ControlPromptAttachment::Image(a))
            matches Ok((_, ext)) && ext == "gif"@),
        !supported_image_type(a.media_type@) ==> prepared_attachment(
            position,
            ControlPromptAttachment::Image(a),
        ) == Err::<(Seq<u8>, Seq<char>), Seq<char>>("unsupported image media type: "@ + a.media_type@),
{
    supported_image_types_and_their_extensions(a.media_type@);
}

} // verus!
