use vstd::prelude::*;
use crate::action::{Action, ActionManager};
use crate::components::{LatexComponentDatabaseManager, WorkerState, DatabaseModel, db_step, DatabaseOp};
use crate::diagnostics::{Diagnostic, DiagnosticsManager, LatexLintOptions, stored};
use crate::document::{Document, DocumentModel, Syntax, strs_view};
use crate::resolver::{ResolverError, ResolverSlot, TexResolver};
use crate::uri::{file_path_of, file_uri, has_file_scheme, local_path, url_from_file_path};
use crate::workspace::{Workspace, add_spec, update_spec, load_spec, find_spec, contains_uri, is_unresolved};

verus! {

/// Where the server keeps its files.
#[derive(Debug, PartialEq, Eq)]
pub struct ServerConfig {
    pub component_database_path: String,
}

impl ServerConfig {
    /// The configuration that keeps the component database in `directory`.
    pub fn in_directory(directory: &String) -> (r: ServerConfig)
        ensures
            r.component_database_path@ == directory@ + "/components.json"@,
    {
        ServerConfig { component_database_path: directory.clone().concat("/components.json") }
    }
}

/// What the client declared it supports, as far as the server asks.
#[derive(Debug, Clone, Copy, PartialEq, Eq, Structural)]
pub struct ClientCapabilities {
    /// Watches of files can be registered while the session runs.
    pub dynamic_watch_registration: bool,
    /// Configuration can be fetched from the client.
    pub configuration: bool,
}

/// The options of the on-save build.
#[derive(Debug, Clone, Copy, PartialEq, Eq, Structural)]
pub struct BuildOptions {
    pub on_save: Option<bool>,
}

impl BuildOptions {
    /// Whether to build a document when it is saved; off unless configured.
    pub fn on_save(&self) -> (r: bool)
        ensures
            r == (self.on_save == Some(true)),
    {
        match self.on_save {
            Some(b) => b,
            None => false,
        }
    }
}

/// The view of one request on the session: the document it is about and the
/// resolver at the time it came.
pub struct FeatureRequest {
    pub document: Document,
    pub resolver: TexResolver,
}

/// The path of the document whose build log is at `p`: `p` with its last
/// three characters replaced by `tex`.
pub open spec fn tex_path_of_log(p: Seq<char>) -> Seq<char> {
    p.subrange(0, p.len() - 3) + "tex"@
}

/// The path of the document whose build log is at `log_path`, when the path
/// is long enough to end in an extension of three characters.
pub fn tex_path_of(log_path: &String) -> (r: Option<String>)
    ensures
        match r {
            Some(t) => log_path@.len() >= 3 && t@ == tex_path_of_log(log_path@),
            None => log_path@.len() < 3,
        },
{
    let s = log_path.as_str();
    let n = s.unicode_len();
    if n < 3 {
        None
    } else {
        Some(s.substring_char(0, n - 3).to_owned().concat("tex"))
    }
}

/// The session: the workspace, the queue of pending actions, the shared
/// resources and the diagnostics, driven by the events of the client.
pub struct LatexLspServer {
    config: ServerConfig,
    client_capabilities: Option<ClientCapabilities>,
    workspace_manager: Workspace,
    action_manager: ActionManager,
    database_manager: Option<LatexComponentDatabaseManager>,
    diagnostics_manager: DiagnosticsManager,
    resolver: ResolverSlot,
}

impl LatexLspServer {
    pub closed spec fn capabilities(&self) -> Option<ClientCapabilities> {
        self.client_capabilities
    }

    pub closed spec fn documents(&self) -> Seq<DocumentModel> {
        self.workspace_manager@
    }

    pub closed spec fn pending(&self) -> Seq<Action> {
        self.action_manager@
    }

    pub closed spec fn database(&self) -> Option<DatabaseModel> {
        match self.database_manager {
            Some(m) => Some(m@),
            None => None,
        }
    }

    pub closed spec fn lint_diagnostics(&self) -> Map<Seq<char>, Seq<Diagnostic>> {
        self.diagnostics_manager.latex@
    }

    pub closed spec fn build_diagnostics(&self) -> Map<Seq<char>, Seq<Diagnostic>> {
        self.diagnostics_manager.build@
    }

    pub closed spec fn current_resolver(&self) -> TexResolver {
        self.resolver.current()
    }

    pub closed spec fn database_path(&self) -> Seq<char> {
        self.config.component_database_path@
    }

    /// Everything but the pending actions is as in `o`.
    pub open spec fn same_state(&self, o: &LatexLspServer) -> bool {
        &&& self.capabilities() == o.capabilities()
        &&& self.documents() == o.documents()
        &&& self.database() == o.database()
        &&& self.lint_diagnostics() == o.lint_diagnostics()
        &&& self.build_diagnostics() == o.build_diagnostics()
        &&& self.current_resolver() == o.current_resolver()
        &&& self.database_path() == o.database_path()
    }

    pub closed spec fn wf(&self) -> bool {
        &&& self.workspace_manager.wf()
        &&& self.diagnostics_manager.wf()
        &&& match self.database_manager {
            Some(m) => m.wf(),
            None => true,
        }
    }

    /// A session with nothing known and nothing loaded yet.
    pub fn new(config: ServerConfig) -> (r: LatexLspServer)
        ensures
            r.wf(),
            r.capabilities() is None,
            r.documents() == Seq::<DocumentModel>::empty(),
            r.pending() == Seq::<Action>::empty(),
            r.database() is None,
            r.lint_diagnostics() == Map::<Seq<char>, Seq<Diagnostic>>::empty(),
            r.build_diagnostics() == Map::<Seq<char>, Seq<Diagnostic>>::empty(),
            forall|n: Seq<char>| r.current_resolver().lookup(n) is None,
            r.database_path() == config.component_database_path@,
    {
        LatexLspServer {
            config,
            client_capabilities: None,
            workspace_manager: Workspace::new(),
            action_manager: ActionManager::new(),
            database_manager: None,
            diagnostics_manager: DiagnosticsManager::new(),
            resolver: ResolverSlot::new(),
        }
    }

    /// Records what the client supports; this is done once per session, and a
    /// second attempt changes nothing and returns false.
    pub fn initialize(&mut self, capabilities: ClientCapabilities) -> (r: bool)
        requires
            old(self).wf(),
        ensures
            final(self).wf(),
            r == old(self).capabilities() is None,
            final(self).capabilities() == if r { Some(capabilities) } else { old(self).capabilities() },
            final(self).documents() == old(self).documents(),
            final(self).pending() == old(self).pending(),
    {
        if self.client_capabilities.is_some() {
            false
        } else {
            self.client_capabilities = Some(capabilities);
            true
        }
    }

    /// Queues the start-up work once the client is ready.
    pub fn initialized(&mut self)
        ensures
            old(self).wf() ==> final(self).wf(),
            final(self).same_state(old(self)),
            final(self).pending() == old(self).pending() + seq![
                Action::RegisterCapabilities,
                Action::LoadResolver,
                Action::LoadComponentDatabase,
                Action::ScanComponents,
                Action::DetectChildren,
                Action::PublishDiagnostics,
            ],
    {
        self.action_manager.push(Action::RegisterCapabilities);
        self.action_manager.push(Action::LoadResolver);
        self.action_manager.push(Action::LoadComponentDatabase);
        self.action_manager.push(Action::ScanComponents);
        self.action_manager.push(Action::DetectChildren);
        self.action_manager.push(Action::PublishDiagnostics);
        assert(self.pending() =~= old(self).pending() + seq![
            Action::RegisterCapabilities,
            Action::LoadResolver,
            Action::LoadComponentDatabase,
            Action::ScanComponents,
            Action::DetectChildren,
            Action::PublishDiagnostics,
        ]);
    }

    /// A document was opened: it joins the workspace, and its root, its
    /// children, its components and the diagnostics are seen to next.
    pub fn did_open(&mut self, document: Document)
        requires
            old(self).wf(),
        ensures
            final(self).wf(),
            final(self).documents() == add_spec(old(self).documents(), document@),
            final(self).pending() == old(self).pending() + seq![
                Action::DetectRoot(document.uri),
                Action::DetectChildren,
                Action::ScanComponents,
                Action::PublishDiagnostics,
            ],
            final(self).database() == old(self).database(),
            final(self).lint_diagnostics() == old(self).lint_diagnostics(),
            final(self).build_diagnostics() == old(self).build_diagnostics(),
    {
        let uri = document.uri.clone();
        self.workspace_manager.add(document);
        self.action_manager.push(Action::DetectRoot(uri));
        self.action_manager.push(Action::DetectChildren);
        self.action_manager.push(Action::ScanComponents);
        self.action_manager.push(Action::PublishDiagnostics);
        assert(self.pending() =~= old(self).pending() + seq![
            Action::DetectRoot(document.uri),
            Action::DetectChildren,
            Action::ScanComponents,
            Action::PublishDiagnostics,
        ]);
    }

    /// The text of document `uri` changed; what was parsed from the new text
    /// comes with it.
    pub fn did_change(&mut self, uri: &String, text: String, syntax: Syntax)
        requires
            old(self).wf(),
        ensures
            final(self).wf(),
            final(self).documents() == update_spec(old(self).documents(), uri@, text@, syntax@),
            final(self).pending() == old(self).pending() + seq![
                Action::DetectChildren,
                Action::ScanComponents,
                Action::PublishDiagnostics,
            ],
            final(self).database() == old(self).database(),
            final(self).lint_diagnostics() == old(self).lint_diagnostics(),
            final(self).build_diagnostics() == old(self).build_diagnostics(),
    {
        self.workspace_manager.update(uri, text, syntax);
        self.action_manager.push(Action::DetectChildren);
        self.action_manager.push(Action::ScanComponents);
        self.action_manager.push(Action::PublishDiagnostics);
        assert(self.pending() =~= old(self).pending() + seq![
            Action::DetectChildren,
            Action::ScanComponents,
            Action::PublishDiagnostics,
        ]);
    }

    /// Document `uri` was saved: lint it, publish, and build it.
    pub fn did_save(&mut self, uri: String)
        ensures
            old(self).wf() ==> final(self).wf(),
            final(self).same_state(old(self)),
            final(self).pending() == old(self).pending() + seq![
                Action::RunLinter(uri),
                Action::PublishDiagnostics,
                Action::Build(uri),
            ],
    {
        self.action_manager.push(Action::RunLinter(uri.clone()));
        self.action_manager.push(Action::PublishDiagnostics);
        self.action_manager.push(Action::Build(uri));
        assert(self.pending() =~= old(self).pending() + seq![
            Action::RunLinter(uri),
            Action::PublishDiagnostics,
            Action::Build(uri),
        ]);
    }

    /// Build logs changed at `log_uris`: the log of each document the
    /// workspace holds is queued for parsing, then the diagnostics for
    /// publishing. A log belongs to the document whose path is the log's
    /// path with `tex` for its last three characters.
    pub fn did_change_watched_files(&mut self, log_uris: &Vec<String>)
        requires
            old(self).wf(),
        ensures
            old(self).wf() ==> final(self).wf(),
            final(self).same_state(old(self)),
            final(self).pending().len() > old(self).pending().len(),
            final(self).pending().subrange(0, old(self).pending().len() as int) == old(self).pending(),
            final(self).pending().last() == Action::PublishDiagnostics,
            parse_logs_of(old(self).documents(), strs_view(log_uris@)) == final(self).pending().subrange(
                old(self).pending().len() as int,
                final(self).pending().len() - 1,
            ).map_values(|a: Action| log_request(a)),
    {
        let ghost ws = self.workspace_manager@;
        let ghost start = self.action_manager@.len();
        let mut i: usize = 0;
        while i < log_uris.len()
            invariant
                self.wf(),
                self.same_state(old(self)),
                i <= log_uris.len(),
                start == old(self).pending().len(),
                ws == self.documents(),
                self.pending().len() >= start,
                self.pending().subrange(0, start as int) == old(self).pending(),
                parse_logs_of(ws, strs_view(log_uris@).subrange(0, i as int)) == self.pending().subrange(
                    start as int,
                    self.pending().len() as int,
                ).map_values(|a: Action| log_request(a)),
            decreases log_uris.len() - i,
        {
            let ghost pre = strs_view(log_uris@).subrange(0, i as int);
            let ghost cur = strs_view(log_uris@).subrange(0, i + 1);
            assert(cur.drop_last() =~= pre);
            let ghost q0 = self.pending();
            let log_uri = &log_uris[i];
            assert(cur.last() == log_uri@);
            let mut queued = false;
            if let Some(log_path) = file_path_of(log_uri) {
                if let Some(tex_path) = tex_path_of(&log_path) {
                    if let Some(tex_uri) = url_from_file_path(&tex_path) {
                        if self.workspace_manager.contains(&tex_uri) {
                            let ghost (t, l) = (tex_uri@, log_path@);
                            self.action_manager.push(Action::ParseLog { tex_uri, log_path });
                            assert(parse_logs_of(ws, cur) == parse_logs_of(ws, pre).push((t, l)));
                            assert(self.pending().subrange(start as int, self.pending().len() as int) =~= q0.subrange(
                                start as int,
                                q0.len() as int,
                            ).push(self.pending().last()));
                            assert(self.pending().subrange(0, start as int) =~= q0.subrange(0, start as int));
                            assert(log_request(self.pending().last()) == (t, l));
                            assert(self.pending().subrange(start as int, self.pending().len() as int).map_values(
                                |a: Action| log_request(a),
                            ) =~= q0.subrange(start as int, q0.len() as int).map_values(|a: Action| log_request(a)).push(
                                (t, l),
                            ));
                            queued = true;
                        }
                    }
                }
            }
            if !queued {
                assert(parse_logs_of(ws, cur) == parse_logs_of(ws, pre));
            }
            i += 1;
        }
        assert(strs_view(log_uris@).subrange(0, log_uris.len() as int) =~= strs_view(log_uris@));
        let ghost q1 = self.pending();
        self.action_manager.push(Action::PublishDiagnostics);
        assert(self.pending().subrange(0, start as int) =~= q1.subrange(0, start as int));
        assert(self.pending().subrange(start as int, self.pending().len() - 1) =~= q1.subrange(
            start as int,
            q1.len() as int,
        ));
    }

    /// Takes the pending actions for one dispatch pass, in push order; none
    /// is left behind to run twice.
    pub fn take_actions(&mut self) -> (r: Vec<Action>)
        ensures
            old(self).wf() ==> final(self).wf(),
            final(self).same_state(old(self)),
            r@ == old(self).pending(),
            final(self).pending() == Seq::<Action>::empty(),
    {
        self.action_manager.take()
    }

    /// Whether a watch of build logs is to be registered: only where the
    /// client declared that it takes such registrations.
    pub fn should_register_watcher(&self) -> (r: bool)
        ensures
            r == match self.capabilities() {
                Some(c) => c.dynamic_watch_registration,
                None => false,
            },
    {
        match self.client_capabilities {
            Some(c) => c.dynamic_watch_registration,
            None => false,
        }
    }

    /// Whether configuration can be fetched from the client; where it
    /// cannot, every option keeps its default.
    pub fn configuration_available(&self) -> (r: bool)
        ensures
            r == match self.capabilities() {
                Some(c) => c.configuration,
                None => false,
            },
    {
        match self.client_capabilities {
            Some(c) => c.configuration,
            None => false,
        }
    }

    /// Takes the outcome of loading the resolver: a new index is swapped in
    /// whole; a failure keeps the index in use, and is handed back so that
    /// the user can be told.
    pub fn load_resolver(&mut self, outcome: Result<TexResolver, ResolverError>) -> (r: Option<ResolverError>)
        ensures
            old(self).wf() ==> final(self).wf(),
            final(self).pending() == old(self).pending(),
            final(self).documents() == old(self).documents(),
            final(self).database() == old(self).database(),
            match outcome {
                Ok(res) => r is None && final(self).current_resolver() == res,
                Err(e) => r == Some(e) && final(self).current_resolver() == old(self).current_resolver(),
            },
    {
        self.resolver.finish_load(outcome)
    }

    /// The index that requests resolve file names with.
    pub fn resolver(&self) -> (r: &TexResolver)
        ensures
            *r == self.current_resolver(),
    {
        self.resolver.get()
    }

    /// Where the component database is kept on disk.
    pub fn component_database_path(&self) -> (r: &String)
        ensures
            r@ == self.database_path(),
    {
        &self.config.component_database_path
    }

    /// Starts the component database over the cache read from disk (none
    /// where the file was missing or corrupt). This is done once per session:
    /// a second attempt changes nothing and returns false.
    pub fn load_component_database(&mut self, persisted: Option<(Vec<String>, Vec<String>)>) -> (r: bool)
        requires
            old(self).wf(),
        ensures
            final(self).wf(),
            final(self).pending() == old(self).pending(),
            final(self).documents() == old(self).documents(),
            r == old(self).database() is None,
            !r ==> final(self).database() == old(self).database(),
            r ==> match final(self).database() {
                Some(m) => {
                    &&& m.state == WorkerState::Running
                    &&& m.inbox == Seq::<Seq<char>>::empty()
                    &&& match persisted {
                        Some((n, d)) => if n.len() == d.len() {
                            m.names == strs_view(n@) && m.metadata == strs_view(d@)
                        } else {
                            m.names == Seq::<Seq<char>>::empty() && m.metadata == Seq::<Seq<char>>::empty()
                        },
                        None => m.names == Seq::<Seq<char>>::empty() && m.metadata == Seq::<Seq<char>>::empty(),
                    }
                },
                None => false,
            },
    {
        if self.database_manager.is_some() {
            return false;
        }
        self.database_manager = Some(LatexComponentDatabaseManager::load_or_create(persisted));
        true
    }

    /// The workspace, for readers.
    pub fn workspace(&self) -> (r: &Workspace)
        requires
            self.wf(),
        ensures
            r.wf(),
            r@ == self.documents(),
    {
        &self.workspace_manager
    }

    /// Loads a document found on disk, unless its identifier is known
    /// already; says whether it was added.
    pub fn load_document(&mut self, document: Document) -> (r: bool)
        requires
            old(self).wf(),
        ensures
            final(self).wf(),
            final(self).documents() == load_spec(old(self).documents(), document@),
            r == !contains_uri(old(self).documents(), document@.uri),
            final(self).pending() == old(self).pending(),
            final(self).database() == old(self).database(),
    {
        self.workspace_manager.load(document)
    }

    /// The include targets that no known document has as identifier, each
    /// once: the files to look for on disk.
    pub fn unresolved_includes(&self) -> (r: Vec<String>)
        requires
            self.wf(),
        ensures
            strs_view(r@).no_duplicates(),
            forall|t: Seq<char>| strs_view(r@).contains(t) <==> is_unresolved(self.documents(), t),
    {
        self.workspace_manager.unresolved_includes()
    }

    /// Loads the file read from `path`, under the URI of that path, unless the
    /// path has no URI or a document of that URI is known already; says
    /// whether it was added.
    pub fn load_file(&mut self, path: &String, text: String, syntax: Syntax) -> (r: bool)
        requires
            old(self).wf(),
        ensures
            final(self).wf(),
            final(self).pending() == old(self).pending(),
            final(self).database() == old(self).database(),
            match file_uri(path@) {
                Some(u) => {
                    &&& final(self).documents() == load_spec(
                        old(self).documents(),
                        DocumentModel { uri: u, text: text@, syntax: syntax@ },
                    )
                    &&& r == !contains_uri(old(self).documents(), u)
                },
                None => final(self).documents() == old(self).documents() && !r,
            },
    {
        match url_from_file_path(path) {
            Some(uri) => self.workspace_manager.load(Document::new(uri, text, syntax)),
            None => false,
        }
    }

    /// The diagnostics to publish: for each document, in order, its
    /// identifier with its lint diagnostics followed by its build diagnostics.
    pub fn diagnostics_to_publish(&self) -> (r: Vec<(String, Vec<Diagnostic>)>)
        requires
            self.wf(),
        ensures
            r@.len() == self.documents().len(),
            forall|i: int| 0 <= i < r@.len() ==> (#[trigger] r@[i]).0@ == self.documents()[i].uri
                && r@[i].1@ == stored(self.lint_diagnostics(), self.documents()[i].uri)
                + stored(self.build_diagnostics(), self.documents()[i].uri),
    {
        let mut r: Vec<(String, Vec<Diagnostic>)> = Vec::new();
        let mut i: usize = 0;
        while i < self.workspace_manager.len()
            invariant
                self.wf(),
                i <= self.documents().len(),
                r@.len() == i,
                forall|j: int| 0 <= j < i ==> (#[trigger] r@[j]).0@ == self.documents()[j].uri
                    && r@[j].1@ == stored(self.lint_diagnostics(), self.documents()[j].uri)
                    + stored(self.build_diagnostics(), self.documents()[j].uri),
            decreases self.documents().len() - i,
        {
            let document = self.workspace_manager.get(i);
            let diagnostics = self.diagnostics_manager.get(document);
            r.push((document.uri.clone(), diagnostics));
            i += 1;
        }
        r
    }

    /// Stores what the linter reported for file `uri`, when linting on save
    /// is enabled; otherwise the diagnostics stay as they were.
    pub fn store_lint(&mut self, uri: &String, options: LatexLintOptions, result: Option<Vec<Diagnostic>>)
        requires
            old(self).wf(),
        ensures
            final(self).wf(),
            final(self).pending() == old(self).pending(),
            final(self).documents() == old(self).documents(),
            final(self).build_diagnostics() == old(self).build_diagnostics(),
            final(self).lint_diagnostics() == if options.on_save == Some(true) && has_file_scheme(uri@) {
                old(self).lint_diagnostics().insert(
                    uri@,
                    match result {
                        Some(v) => v@,
                        None => Seq::<Diagnostic>::empty(),
                    },
                )
            } else {
                old(self).lint_diagnostics()
            },
    {
        if options.on_save() {
            self.diagnostics_manager.latex.update(uri, result);
        }
    }

    /// Stores the diagnostics parsed from the build log of `uri`.
    pub fn store_build_log(&mut self, uri: &String, diagnostics: Vec<Diagnostic>)
        requires
            old(self).wf(),
        ensures
            final(self).wf(),
            final(self).pending() == old(self).pending(),
            final(self).documents() == old(self).documents(),
            final(self).lint_diagnostics() == old(self).lint_diagnostics(),
            final(self).build_diagnostics() == old(self).build_diagnostics().insert(uri@, diagnostics@),
    {
        self.diagnostics_manager.build.update(uri, diagnostics);
    }

    /// The state of a request about document `uri`: the document and the
    /// resolver at this moment; an error where the document is unknown.
    pub fn feature_request(&self, uri: &String) -> (r: Result<FeatureRequest, String>)
        requires
            self.wf(),
        ensures
            match r {
                Ok(req) => find_spec(self.documents(), uri@) == Some(req.document@)
                    && req.resolver.names() == self.current_resolver().names()
                    && req.resolver.paths() == self.current_resolver().paths(),
                Err(msg) => find_spec(self.documents(), uri@) is None && msg@ == "Unknown document: "@ + uri@,
            },
    {
        match self.workspace_manager.find(uri) {
            Some(document) => Ok(FeatureRequest { document, resolver: self.resolver.get().duplicate() }),
            None => Err("Unknown document: ".to_owned().concat(uri.as_str())),
        }
    }

    /// Queues a scan of every component of every document, when the
    /// component database runs.
    pub fn scan_components(&mut self)
        requires
            old(self).wf(),
        ensures
            final(self).wf(),
            final(self).pending() == old(self).pending(),
            final(self).documents() == old(self).documents(),
            final(self).database() == match old(self).database() {
                Some(m) => Some(
                    if m.state == WorkerState::Running {
                        DatabaseModel { inbox: m.inbox + all_components(old(self).documents()), ..m }
                    } else {
                        m
                    },
                ),
                None => None,
            },
    {
        match &mut self.database_manager {
            Some(db) => enqueue_all(db, &self.workspace_manager),
            None => {},
        }
    }

    /// Tells the component database to take no new request and to drain its
    /// queue; the worker is then joined with `join_scanner`.
    pub fn stop_scanning(&mut self)
        requires
            old(self).wf(),
        ensures
            final(self).wf(),
            final(self).pending() == old(self).pending(),
            final(self).documents() == old(self).documents(),
            final(self).database() == match old(self).database() {
                Some(m) => Some(db_step(m, DatabaseOp::Close)),
                None => None,
            },
    {
        match &mut self.database_manager {
            Some(db) => db.close(),
            None => {},
        }
    }

    /// The worker takes the oldest scan request, if the database runs or
    /// drains.
    pub fn take_scan_request(&mut self) -> (r: Option<String>)
        requires
            old(self).wf(),
        ensures
            final(self).wf(),
            final(self).pending() == old(self).pending(),
            final(self).documents() == old(self).documents(),
            match old(self).database() {
                Some(m) => {
                    &&& final(self).database() == Some(db_step(m, DatabaseOp::Take))
                    &&& match r {
                        Some(c) => m.state != WorkerState::Stopped && m.inbox.len() > 0 && c@ == m.inbox[0],
                        None => m.state == WorkerState::Stopped || m.inbox.len() == 0,
                    }
                },
                None => final(self).database() is None && r is None,
            },
    {
        match &mut self.database_manager {
            Some(db) => db.take_request(),
            None => None,
        }
    }

    /// Whether the component database knows `component`; false while there
    /// is no database.
    pub fn is_component_known(&self, component: &String) -> (r: bool)
        ensures
            r == match self.database() {
                Some(m) => m.names.contains(component@),
                None => false,
            },
    {
        match &self.database_manager {
            Some(db) => db.is_known(component),
            None => false,
        }
    }

    /// The worker stores what a scan of `component` found.
    pub fn record_scan(&mut self, component: &String, found: Option<String>) -> (r: bool)
        requires
            old(self).wf(),
        ensures
            final(self).wf(),
            final(self).pending() == old(self).pending(),
            final(self).documents() == old(self).documents(),
            match old(self).database() {
                Some(m) => {
                    let next = db_step(
                        m,
                        DatabaseOp::Record(
                            component@,
                            match found {
                                Some(x) => Some(x@),
                                None => None,
                            },
                        ),
                    );
                    final(self).database() == Some(next) && r == (next != m)
                },
                None => final(self).database() is None && !r,
            },
    {
        match &mut self.database_manager {
            Some(db) => db.record(component, found),
            None => false,
        }
    }

    /// Completes the shutdown of the component database once it was told to
    /// close and has drained its queue; says whether it is stopped.
    pub fn join_scanner(&mut self) -> (r: bool)
        requires
            old(self).wf(),
        ensures
            final(self).wf(),
            final(self).pending() == old(self).pending(),
            final(self).documents() == old(self).documents(),
            match old(self).database() {
                Some(m) => {
                    let next = db_step(m, DatabaseOp::Join);
                    final(self).database() == Some(next) && r == (next.state == WorkerState::Stopped)
                },
                None => final(self).database() is None && !r,
            },
    {
        match &mut self.database_manager {
            Some(db) => db.join(),
            None => false,
        }
    }

    /// A snapshot of the component cache, to persist or to read; empty while
    /// there is no database.
    pub fn component_snapshot(&self) -> (r: (Vec<String>, Vec<String>))
        ensures
            match self.database() {
                Some(m) => strs_view(r.0@) == m.names && strs_view(r.1@) == m.metadata,
                None => r.0@.len() == 0 && r.1@.len() == 0,
            },
    {
        match &self.database_manager {
            Some(db) => db.get(),
            None => (Vec::new(), Vec::new()),
        }
    }
}

/// The components of all documents, document by document.
pub open spec fn all_components(ws: Seq<DocumentModel>) -> Seq<Seq<char>>
    decreases ws.len(),
{
    if ws.len() == 0 {
        Seq::empty()
    } else {
        all_components(ws.drop_last()) + ws.last().syntax.components
    }
}

/// Queues a scan of every component of every document of `ws`, when `db`
/// runs.
fn enqueue_all(db: &mut LatexComponentDatabaseManager, ws: &Workspace)
    ensures
        final(db)@ == if old(db)@.state == WorkerState::Running {
            DatabaseModel { inbox: old(db)@.inbox + all_components(ws@), ..old(db)@ }
        } else {
            old(db)@
        },
        old(db).wf() ==> final(db).wf(),
{
    if db.state() != WorkerState::Running {
        return;
    }
    let mut i: usize = 0;
    assert(ws@.subrange(0, 0) =~= Seq::<DocumentModel>::empty());
    assert(db@.inbox + all_components(ws@.subrange(0, 0)) =~= db@.inbox);
    while i < ws.len()
        invariant
            i <= ws@.len(),
            old(db)@.state == WorkerState::Running,
            db@ == (DatabaseModel { inbox: old(db)@.inbox + all_components(ws@.subrange(0, i as int)), ..old(db)@ }),
            old(db).wf() ==> db.wf(),
        decreases ws@.len() - i,
    {
        let components = &ws.get(i).syntax.components;
        let ghost base = db@.inbox;
        let mut k: usize = 0;
        assert(base + strs_view(components@).subrange(0, 0) =~= base);
        while k < components.len()
            invariant
                i < ws@.len(),
                old(db)@.state == WorkerState::Running,
                strs_view(components@) == ws@[i as int].syntax.components,
                k <= components.len(),
                db@ == (DatabaseModel { inbox: base + strs_view(components@).subrange(0, k as int), ..old(db)@ }),
                base == old(db)@.inbox + all_components(ws@.subrange(0, i as int)),
                old(db).wf() ==> db.wf(),
            decreases components.len() - k,
        {
            let ghost before = db@.inbox;
            db.enqueue(&components[k]);
            assert(strs_view(components@).subrange(0, k + 1) =~= strs_view(components@).subrange(0, k as int).push(components@[k as int]@));
            assert(before.push(components@[k as int]@) =~= base + strs_view(components@).subrange(0, k + 1));
            k += 1;
        }
        proof {
            let cur = ws@.subrange(0, i + 1);
            assert(cur.drop_last() =~= ws@.subrange(0, i as int));
            assert(strs_view(components@).subrange(0, components@.len() as int) =~= ws@[i as int].syntax.components);
            assert(cur.last() == ws@[i as int]);
            assert(base + ws@[i as int].syntax.components =~= old(db)@.inbox + all_components(cur));
        }
        i += 1;
    }
    assert(ws@.subrange(0, ws@.len() as int) =~= ws@);
}

/// The document and log paths of a parse request; empty for another action.
pub open spec fn log_request(a: Action) -> (Seq<char>, Seq<char>) {
    match a {
        Action::ParseLog { tex_uri, log_path } => (tex_uri@, log_path@),
        _ => (Seq::empty(), Seq::empty()),
    }
}

/// The URI of the document that the log at `log_path` belongs to.
pub open spec fn tex_uri_of_log(log_path: Seq<char>) -> Option<Seq<char>> {
    if log_path.len() >= 3 {
        file_uri(tex_path_of_log(log_path))
    } else {
        None
    }
}

/// For each log URI in `us` whose document the workspace holds, in order,
/// that document's URI and the log's path.
pub open spec fn parse_logs_of(ws: Seq<DocumentModel>, us: Seq<Seq<char>>) -> Seq<(Seq<char>, Seq<char>)>
    decreases us.len(),
{
    if us.len() == 0 {
        Seq::empty()
    } else {
        let rest = parse_logs_of(ws, us.drop_last());
        match local_path(us.last()) {
            Some(p) => match tex_uri_of_log(p) {
                Some(t) => if contains_uri(ws, t) {
                    rest.push((t, p))
                } else {
                    rest
                },
                None => rest,
            },
            None => rest,
        }
    }
}

} // verus!
