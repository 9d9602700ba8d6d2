//! The active-server registry and the front-end command that starts a
//! language server.
//!
//! The registry tracks which languages currently have a running adapter.
//! At most one adapter runs per language: a second start request for an
//! active language acknowledges without launching. A language is marked
//! active before its adapter is launched, and unmarked again when the
//! launch fails, so a later retry can succeed.

use vstd::prelude::*;
use vstd::string::StringExecFns;

use crate::errors::LspError;
use crate::lang::{
    is_supported_language, normalize_language, normalized_language, supported_language,
};
use crate::text::str_eq;

verus! {

/// Whether `l` occurs in the sequence of active languages.
pub open spec fn seq_has(s: Seq<Seq<char>>, l: Seq<char>) -> bool {
    exists|i: int| 0 <= i < s.len() && s[i] == l
}

/// How many entries of the sequence equal `l`.
pub open spec fn occurrences(s: Seq<Seq<char>>, l: Seq<char>) -> nat
    decreases s.len(),
{
    if s.len() == 0 {
        0
    } else {
        occurrences(s.drop_last(), l) + if s.last() == l {
            1nat
        } else {
            0nat
        }
    }
}

/// A sequence free of `l` holds no occurrence of it.
pub proof fn lemma_occurrences_absent(s: Seq<Seq<char>>, l: Seq<char>)
    requires
        !seq_has(s, l),
    ensures
        occurrences(s, l) == 0,
    decreases s.len(),
{
    if s.len() > 0 {
        assert(forall|i: int| 0 <= i < s.len() - 1 ==> s.drop_last()[i] == s[i]);
        lemma_occurrences_absent(s.drop_last(), l);
    }
}

/// A sequence that holds `l` holds at least one occurrence of it.
pub proof fn lemma_occurrences_present(s: Seq<Seq<char>>, l: Seq<char>)
    requires
        seq_has(s, l),
    ensures
        occurrences(s, l) >= 1,
    decreases s.len(),
{
    if s.len() > 0 && s.last() != l {
        let i = choose|i: int| 0 <= i < s.len() && s[i] == l;
        assert(s.drop_last()[i] == l);
        lemma_occurrences_present(s.drop_last(), l);
    }
}

/// The process-wide record of which languages have a running adapter.
pub struct ActiveServerRegistry {
    active: Vec<String>,
}

impl ActiveServerRegistry {
    /// The active language identifiers, in the order they were started.
    pub closed spec fn languages(self) -> Seq<Seq<char>> {
        self.active@.map_values(|s: String| s@)
    }

    /// No language is registered twice.
    pub open spec fn wf(self) -> bool {
        forall|i: int, j: int|
            0 <= i < j < self.languages().len() ==> self.languages()[i] != self.languages()[j]
    }

    /// Whether an adapter for `l` is registered as running.
    pub open spec fn is_active_spec(self, l: Seq<char>) -> bool {
        seq_has(self.languages(), l)
    }

    /// Creates an empty registry.
    pub fn new() -> (r: ActiveServerRegistry)
        ensures
            r.wf(),
            r.languages() == Seq::<Seq<char>>::empty(),
    {
        let r = ActiveServerRegistry { active: Vec::new() };
        proof {
            assert(r.languages() =~= Seq::<Seq<char>>::empty());
        }
        r
    }

    /// How many languages are active.
    pub fn active_count(&self) -> (n: usize)
        ensures
            n == self.languages().len(),
    {
        self.active.len()
    }

    /// Tests whether an adapter for the language is registered.
    pub fn is_active(&self, language: &str) -> (r: bool)
        ensures
            r == self.is_active_spec(language@),
    {
        let mut i: usize = 0;
        while i < self.active.len()
            invariant
                i <= self.active@.len(),
                forall|j: int| 0 <= j < i ==> self.languages()[j] != language@,
            decreases self.active@.len() - i,
        {
            if str_eq(self.active[i].as_str(), language) {
                proof {
                    assert(self.languages()[i as int] == language@);
                }
                return true;
            }
            i = i + 1;
        }
        false
    }

    /// Registers the language as active.
    pub fn mark_active(&mut self, language: &str)
        requires
            old(self).wf(),
            !old(self).is_active_spec(language@),
        ensures
            final(self).wf(),
            final(self).languages() == old(self).languages().push(language@),
    {
        self.active.push(language.to_owned());
        proof {
            assert(self.languages() =~= old(self).languages().push(language@));
        }
    }

    /// Removes the language from the active set, if present.
    pub fn mark_inactive(&mut self, language: &str)
        requires
            old(self).wf(),
        ensures
            final(self).wf(),
            !final(self).is_active_spec(language@),
            forall|m: Seq<char>|
                m != language@ ==> (#[trigger] seq_has(final(self).languages(), m) <==> seq_has(
                    old(self).languages(),
                    m,
                )),
            old(self).is_active_spec(language@) ==> final(self).languages().len() == old(self).languages().len() - 1,
            !old(self).is_active_spec(language@) ==> final(self).languages() == old(self).languages(),
    {
        let mut i: usize = 0;
        while i < self.active.len()
            invariant
                old(self).wf(),
                i <= self.active@.len(),
                self.active@ == old(self).active@,
                forall|j: int| 0 <= j < i ==> self.languages()[j] != language@,
            decreases self.active@.len() - i,
        {
            if str_eq(self.active[i].as_str(), language) {
                let ghost before = self.languages();
                self.active.remove(i);
                proof {
                    assert(before == old(self).languages());
                    assert forall|a: int, b: int|
                        0 <= a < b < before.len() implies before[a] != before[b] by {
                        assert(old(self).languages()[a] != old(self).languages()[b]);
                    }
                    assert(self.languages() =~= before.remove(i as int));
                    assert(before[i as int] == language@);
                    assert forall|j: int|
                        0 <= j < self.languages().len() implies self.languages()[j]
                        != language@ by {
                        if j < i {
                            assert(self.languages()[j] == before[j]);
                        } else {
                            assert(self.languages()[j] == before[j + 1]);
                            assert(before[j + 1] != before[i as int]);
                        }
                    }
                    assert forall|m: Seq<char>|
                        m != language@ && seq_has(before, m) implies #[trigger] seq_has(
                        self.languages(),
                        m,
                    ) by {
                        let k = choose|k: int| 0 <= k < before.len() && before[k] == m;
                        if k < i {
                            assert(self.languages()[k] == m);
                        } else {
                            assert(k != i);
                            assert(self.languages()[k - 1] == m);
                        }
                    }
                    assert forall|m: Seq<char>|
                        m != language@ && seq_has(self.languages(), m) implies #[trigger] seq_has(
                        before,
                        m,
                    ) by {
                        let k = choose|k: int|
                            0 <= k < self.languages().len() && self.languages()[k] == m;
                        if k < i {
                            assert(before[k] == m);
                        } else {
                            assert(before[k + 1] == m);
                        }
                    }
                    assert forall|a: int, b: int|
                        0 <= a < b < self.languages().len() implies self.languages()[a]
                        != self.languages()[b] by {
                        let a0: int = if a < i {
                            a
                        } else {
                            a + 1
                        };
                        let b0: int = if b < i {
                            b
                        } else {
                            b + 1
                        };
                        assert(self.languages()[a] == before[a0]);
                        assert(self.languages()[b] == before[b0]);
                    }
                }
                return ;
            }
            i = i + 1;
        }
        proof {
            assert(self.languages() == old(self).languages());
            assert forall|a: int, b: int|
                0 <= a < b < self.languages().len() implies self.languages()[a]
                != self.languages()[b] by {
                assert(old(self).languages()[a] != old(self).languages()[b]);
            }
        }
    }
}

/// What the start command decided for a request.
pub enum StartCase {
    /// The given file path does not exist.
    RejectedMissingPath,
    /// The normalized language has no adapter implementation.
    RejectedUnsupported,
    /// An adapter for the language is already registered.
    AlreadyRunning,
    /// The language was registered and an adapter launch is owed.
    Launched,
}

/// The decision the start command takes, given the registry contents.
pub open spec fn start_case_of(
    active: Seq<Seq<char>>,
    language: Seq<char>,
    path: Seq<char>,
    path_exists: bool,
) -> StartCase {
    let norm = normalized_language(language, path);
    if !path_exists {
        StartCase::RejectedMissingPath
    } else if !supported_language(norm) {
        StartCase::RejectedUnsupported
    } else if seq_has(active, norm) {
        StartCase::AlreadyRunning
    } else {
        StartCase::Launched
    }
}

/// The registry contents after the start command.
pub open spec fn start_active_after(
    active: Seq<Seq<char>>,
    language: Seq<char>,
    path: Seq<char>,
    path_exists: bool,
) -> Seq<Seq<char>> {
    let norm = normalized_language(language, path);
    if start_case_of(active, language, path, path_exists) is Launched {
        active.push(norm)
    } else {
        active
    }
}

/// A successful acknowledgment of a start request.
#[derive(Debug)]
pub struct StartAck {
    /// The human-readable acknowledgment.
    pub message: String,
    /// The normalized language the acknowledgment is about.
    pub language: String,
    /// Whether the caller now owes an adapter launch for `language`.
    pub launch: bool,
}

/// Validates a start request and registers the language.
///
/// The caller reports whether the file path exists and, when the result
/// asks for it, launches the adapter afterwards; a failed launch must be
/// reported through [`report_launch_failure`].
pub fn start_lsp_server(
    registry: &mut ActiveServerRegistry,
    language: &str,
    file_path: &str,
    path_exists: bool,
) -> (r: Result<StartAck, LspError>)
    requires
        old(registry).wf(),
    ensures
        final(registry).wf(),
        final(registry).languages() == start_active_after(
            old(registry).languages(),
            language@,
            file_path@,
            path_exists,
        ),
        ({
            let case = start_case_of(old(registry).languages(), language@, file_path@, path_exists);
            let norm = normalized_language(language@, file_path@);
            match r {
                Ok(ack) => {
                    &&& (case is Launched || case is AlreadyRunning)
                    &&& ack.language@ == norm
                    &&& ack.launch == (case is Launched)
                    &&& (case is Launched ==> ack.message@ == "Started LSP server for "@ + norm)
                    &&& (case is AlreadyRunning ==> ack.message@ == "LSP server for "@ + norm
                        + " is already running"@)
                },
                Err(e) => {
                    &&& (case is RejectedMissingPath || case is RejectedUnsupported)
                    &&& (case is RejectedMissingPath ==> (e matches LspError::PathNotFound { path }
                        && path@ == file_path@))
                    &&& (case is RejectedUnsupported ==> (e matches LspError::UnsupportedLanguage {
                        language: l,
                    } && l@ == norm))
                },
            }
        }),
{
    if !path_exists {
        return Err(LspError::PathNotFound { path: file_path.to_owned() });
    }
    let norm = normalize_language(language, file_path);
    if !is_supported_language(norm.as_str()) {
        return Err(LspError::UnsupportedLanguage { language: norm });
    }
    if registry.is_active(norm.as_str()) {
        let mut msg = String::from_str("LSP server for ");
        msg.append(norm.as_str());
        msg.append(" is already running");
        return Ok(StartAck { message: msg, language: norm, launch: false });
    }
    registry.mark_active(norm.as_str());
    let mut msg = String::from_str("Started LSP server for ");
    msg.append(norm.as_str());
    Ok(StartAck { message: msg, language: norm, launch: true })
}

/// Unregisters a language whose adapter launch failed, so that a later
/// retry can start it again.
pub fn report_launch_failure(registry: &mut ActiveServerRegistry, language: &str)
    requires
        old(registry).wf(),
    ensures
        final(registry).wf(),
        !final(registry).is_active_spec(language@),
        forall|m: Seq<char>|
            m != language@ ==> (#[trigger] seq_has(final(registry).languages(), m) <==> seq_has(
                old(registry).languages(),
                m,
            )),
{
    registry.mark_inactive(language);
}

/// A start request for an unsupported language is rejected and leaves the
/// registry exactly as it was, whatever it held.
pub proof fn lemma_unsupported_start_leaves_registry(
    active: Seq<Seq<char>>,
    language: Seq<char>,
    path: Seq<char>,
)
    requires
        !supported_language(normalized_language(language, path)),
    ensures
        start_case_of(active, language, path, true) is RejectedUnsupported,
        start_active_after(active, language, path, true) == active,
{
}

/// Two consecutive start requests for the same supported language leave
/// exactly one registry entry for it, whatever the registry held: a
/// first request for a fresh language registers it, any following one
/// only acknowledges.
pub proof fn lemma_start_twice_single_entry(
    active: Seq<Seq<char>>,
    language: Seq<char>,
    path: Seq<char>,
)
    requires
        supported_language(normalized_language(language, path)),
        occurrences(active, normalized_language(language, path)) <= 1,
    ensures
        ({
            let norm = normalized_language(language, path);
            let once = start_active_after(active, language, path, true);
            let twice = start_active_after(once, language, path, true);
            &&& start_case_of(once, language, path, true) is AlreadyRunning
            &&& twice == once
            &&& occurrences(once, norm) == 1
        }),
{
    let norm = normalized_language(language, path);
    let once = start_active_after(active, language, path, true);
    if seq_has(active, norm) {
        lemma_occurrences_present(active, norm);
    } else {
        assert(once[once.len() - 1] == norm);
        lemma_occurrences_absent(active, norm);
        assert(once.drop_last() =~= active);
    }
    lemma_occurrences_present(once, norm);
}

/// A start request that names no language, for a file with a `.rs`
/// extension, behaves exactly like a start request for `"rust"`.
pub proof fn lemma_unknown_infers_rust(path: Seq<char>)
    requires
        extension_of_is_rs(path),
    ensures
        normalized_language("unknown"@, path) == "rust"@,
        normalized_language("rust"@, path) == "rust"@,
        forall|active: Seq<Seq<char>>, path_exists: bool|
            #[trigger] start_active_after(active, "unknown"@, path, path_exists)
                == start_active_after(active, "rust"@, path, path_exists),
        forall|active: Seq<Seq<char>>, path_exists: bool|
            #[trigger] start_case_of(active, "unknown"@, path, path_exists) == start_case_of(
                active,
                "rust"@,
                path,
                path_exists,
            ),
{
    reveal_strlit("unknown");
    reveal_strlit("rust");
    reveal_strlit("rs");
    assert(crate::lang::lower_seq("unknown"@) =~= "unknown"@);
    assert(crate::lang::lower_seq("rust"@) =~= "rust"@);
    assert("rust"@.len() == 4 && "unknown"@.len() == 7);
    assert(normalized_language("unknown"@, path) == "rust"@);
    assert(normalized_language("rust"@, path) == "rust"@);
}

/// The extension of the path reads `rs`.
pub open spec fn extension_of_is_rs(path: Seq<char>) -> bool {
    crate::lang::extension_of(path) == Some("rs"@)
}

/// After a launch failure is reported, the failed language is no longer
/// registered, and a retry for it launches again.
pub proof fn lemma_spawn_failure_permits_retry(
    cleaned: Seq<Seq<char>>,
    language: Seq<char>,
    path: Seq<char>,
)
    requires
        supported_language(normalized_language(language, path)),
        !seq_has(cleaned, normalized_language(language, path)),
    ensures
        start_case_of(cleaned, language, path, true) is Launched,
        start_active_after(cleaned, language, path, true) == cleaned.push(
            normalized_language(language, path),
        ),
{
}

} // verus!
