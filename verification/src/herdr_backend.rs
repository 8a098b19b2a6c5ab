//! The decisions of the Herdr backend: which endpoint a project talks to,
//! which managed workspace it owns, and when a lifecycle operation must be
//! refused because ownership no longer matches. Running commands, reading
//! state files and prompting stay with the caller; refusals come back as the
//! message to show.

use vstd::prelude::*;
use crate::env::{Env, lookup, populated};
use crate::herdr::{
    Endpoint, EndpointView, ManagedWorkspace, SessionSnapshot, StateIndex, same_endpoint, path_eq,
    strings_view,
};
use crate::text::{chars_of, string_of, extend_str, str_eq, has_prefix, starts_with};
use crate::util::{expand_path, spec_expand_path};

verus! {

/// What identifies an endpoint in messages: `default`, `session:NAME` or
/// `socket:PATH`.
pub open spec fn spec_describe_endpoint(e: EndpointView) -> Seq<char> {
    match e {
        EndpointView::Default => "default"@,
        EndpointView::NamedSession(n) => "session:"@ + n,
        EndpointView::SocketPath(p) => "socket:"@ + p,
    }
}

pub fn describe_endpoint(endpoint: &Endpoint) -> (r: String)
    ensures
        r@ == spec_describe_endpoint(endpoint@),
{
    let mut out: Vec<char> = Vec::new();
    match endpoint {
        Endpoint::Default => extend_str(&mut out, "default"),
        Endpoint::NamedSession(name) => {
            extend_str(&mut out, "session:");
            extend_str(&mut out, name.as_str());
        },
        Endpoint::SocketPath(path) => {
            extend_str(&mut out, "socket:");
            extend_str(&mut out, path.as_str());
        },
    }
    string_of(out.as_slice())
}

/// The endpoint the environment selects: `HERDR_SOCKET_PATH`, then
/// `HERDR_SESSION`, then the default server.
pub open spec fn spec_ambient_endpoint(env: Env) -> EndpointView {
    if populated(env.all@, "HERDR_SOCKET_PATH"@) {
        EndpointView::SocketPath(lookup(env.all@, "HERDR_SOCKET_PATH"@).unwrap())
    } else if populated(env.all@, "HERDR_SESSION"@) {
        EndpointView::NamedSession(lookup(env.all@, "HERDR_SESSION"@).unwrap())
    } else {
        EndpointView::Default
    }
}

pub fn ambient_endpoint(env: &Env) -> (r: Endpoint)
    ensures
        r@ == spec_ambient_endpoint(*env),
{
    if let Some(path) = env.var("HERDR_SOCKET_PATH") {
        if !path.as_str().is_empty() {
            return Endpoint::SocketPath(path.clone());
        }
    }
    if let Some(name) = env.var("HERDR_SESSION") {
        if !name.as_str().is_empty() {
            return Endpoint::NamedSession(name.clone());
        }
    }
    Endpoint::Default
}

/// A Herdr session name: 1 to 64 ASCII letters, digits, `.`, `_` or `-`.
pub open spec fn session_name_ok(name: Seq<char>) -> bool {
    &&& 0 < name.len() <= 64
    &&& forall|i: int|
        0 <= i < name.len() ==> {
            let c = #[trigger] name[i];
            ('a' <= c && c <= 'z') || ('A' <= c && c <= 'Z') || ('0' <= c && c <= '9') || c == '.'
                || c == '_' || c == '-'
        }
}

pub open spec fn session_name_message(name: Seq<char>) -> Seq<char> {
    "Herdr session name `"@ + name
        + "` must be 1-64 ASCII letters, digits, `.`, `_`, or `-`."@
}

/// Checks a Herdr session name.
pub fn validate_session_name(name: &str) -> (r: Result<(), String>)
    ensures
        match r {
            Ok(_) => session_name_ok(name@),
            Err(m) => !session_name_ok(name@) && m@ == session_name_message(name@),
        },
{
    let cs = chars_of(name);
    let mut ok = cs.len() > 0 && cs.len() <= 64;
    let mut i: usize = 0;
    while i < cs.len() && ok
        invariant
            i <= cs@.len(),
            cs@ == name@,
            ok ==> 0 < cs@.len() <= 64,
            ok ==> forall|j: int|
                0 <= j < i ==> {
                    let c = #[trigger] cs@[j];
                    ('a' <= c && c <= 'z') || ('A' <= c && c <= 'Z') || ('0' <= c && c <= '9')
                        || c == '.' || c == '_' || c == '-'
                },
            !ok ==> !session_name_ok(name@),
        decreases cs.len() - i,
    {
        let c = cs[i];
        if !(('a' <= c && c <= 'z') || ('A' <= c && c <= 'Z') || ('0' <= c && c <= '9') || c
            == '.' || c == '_' || c == '-') {
            ok = false;
        }
        i += 1;
    }
    if ok {
        Ok(())
    } else {
        let mut m: Vec<char> = Vec::new();
        extend_str(&mut m, "Herdr session name `");
        extend_str(&mut m, name);
        extend_str(&mut m, "` must be 1-64 ASCII letters, digits, `.`, `_`, or `-`.");
        Err(string_of(m.as_slice()))
    }
}

/// The endpoint a project selects: its socket path (expanded like a
/// project path), else its session name, else the ambient one.
pub open spec fn spec_endpoint_for(
    socket_path: Option<Seq<char>>,
    socket_name: Option<Seq<char>>,
    env: Env,
) -> Result<EndpointView, Seq<char>> {
    match socket_path {
        Some(p) => Ok(EndpointView::SocketPath(spec_expand_path(p, env.cwd@, env.home@))),
        None => match socket_name {
            Some(n) => if session_name_ok(n) {
                Ok(EndpointView::NamedSession(n))
            } else {
                Err(session_name_message(n))
            },
            None => Ok(spec_ambient_endpoint(env)),
        },
    }
}

pub open spec fn opt_view(o: Option<&str>) -> Option<Seq<char>> {
    match o {
        Some(s) => Some(s@),
        None => None,
    }
}

/// The endpoint for a project's `socket_path` and `socket_name` settings.
pub fn endpoint_for(socket_path: Option<&str>, socket_name: Option<&str>, env: &Env) -> (r: Result<
    Endpoint,
    String,
>)
    ensures
        match r {
            Ok(e) => spec_endpoint_for(opt_view(socket_path), opt_view(socket_name), *env) == Ok::<
                EndpointView,
                Seq<char>,
            >(e@),
            Err(m) => spec_endpoint_for(opt_view(socket_path), opt_view(socket_name), *env) == Err::<
                EndpointView,
                Seq<char>,
            >(m@),
        },
{
    if let Some(path) = socket_path {
        return Ok(Endpoint::SocketPath(expand_path(path, env.cwd.as_str(), env.home.as_str())));
    }
    if let Some(name) = socket_name {
        validate_session_name(name)?;
        return Ok(Endpoint::NamedSession(name.to_owned()));
    }
    Ok(ambient_endpoint(env))
}

/// Whether a variable marks a process running inside a Herdr pane.
pub open spec fn herdr_marker(key: Seq<char>) -> bool {
    has_prefix(key, "HERDR_ACTIVE_"@) || key == "HERDR_ENV"@ || key == "HERDR_WORKSPACE_ID"@ || key
        == "HERDR_TAB_ID"@ || key == "HERDR_PANE_ID"@
}

/// Whether some non-empty variable marks a Herdr pane; the endpoint
/// selectors alone do not.
pub open spec fn spec_inside_herdr(all: Seq<(String, String)>) -> bool {
    exists|i: int| 0 <= i < all.len() && (#[trigger] all[i]).1@.len() > 0 && herdr_marker(all[i].0@)
}

pub fn running_inside_herdr(env: &Env) -> (r: bool)
    ensures
        r == spec_inside_herdr(env.all@),
{
    let prefix = chars_of("HERDR_ACTIVE_");
    let mut i: usize = 0;
    while i < env.all.len()
        invariant
            i <= env.all@.len(),
            prefix@ == "HERDR_ACTIVE_"@,
            forall|j: int|
                0 <= j < i ==> !((#[trigger] env.all@[j]).1@.len() > 0 && herdr_marker(
                    env.all@[j].0@,
                )),
        decreases env.all.len() - i,
    {
        let (key, value) = (&env.all[i].0, &env.all[i].1);
        let kc = chars_of(key.as_str());
        let marker = starts_with(kc.as_slice(), prefix.as_slice()) || str_eq(key.as_str(), "HERDR_ENV")
            || str_eq(key.as_str(), "HERDR_WORKSPACE_ID") || str_eq(key.as_str(), "HERDR_TAB_ID")
            || str_eq(key.as_str(), "HERDR_PANE_ID");
        if !value.as_str().is_empty() && marker {
            return true;
        }
        i += 1;
    }
    false
}

/// The workspace bootmux runs in: `HERDR_ACTIVE_WORKSPACE_ID`, else
/// `HERDR_WORKSPACE_ID`, when non-empty.
pub open spec fn spec_current_workspace(env: Env) -> Option<Seq<char>> {
    let v = match lookup(env.all@, "HERDR_ACTIVE_WORKSPACE_ID"@) {
        Some(a) => Some(a),
        None => lookup(env.all@, "HERDR_WORKSPACE_ID"@),
    };
    match v {
        Some(s) if s.len() > 0 => Some(s),
        _ => None,
    }
}

pub fn current_workspace_id(env: &Env) -> (r: Option<String>)
    ensures
        match r {
            Some(s) => spec_current_workspace(*env) == Some(s@),
            None => spec_current_workspace(*env) is None,
        },
{
    let v = match env.var("HERDR_ACTIVE_WORKSPACE_ID") {
        Some(a) => Some(a),
        None => env.var("HERDR_WORKSPACE_ID"),
    };
    match v {
        Some(s) => if s.as_str().is_empty() {
            None
        } else {
            Some(s.clone())
        },
        None => None,
    }
}

/// The message refusing to stop a workspace whose saved endpoint now
/// resolves elsewhere.
pub open spec fn endpoint_drift_message(project: Seq<char>, saved: EndpointView, now: EndpointView) -> Seq<char> {
    "refusing to stop managed Herdr project `"@ + project + "`: its saved endpoint "@
        + spec_describe_endpoint(saved) + " now resolves to "@ + spec_describe_endpoint(now)
}

/// Checks that a managed workspace's saved endpoint is the socket the
/// server reports now. `canonical` is the canonical form of that socket
/// path, where the filesystem gave one.
pub fn require_managed_endpoint_identity(
    managed: &ManagedWorkspace,
    resolved_socket: &str,
    canonical: Option<&str>,
) -> (r: Result<(), String>)
    ensures
        ({
            let now = EndpointView::SocketPath(
                match canonical {
                    Some(c) => c@,
                    None => resolved_socket@,
                },
            );
            match r {
                Ok(_) => managed.endpoint@ == now,
                Err(m) => managed.endpoint@ != now && m@ == endpoint_drift_message(
                    managed.project_name@,
                    managed.endpoint@,
                    now,
                ),
            }
        }),
{
    let socket = match canonical {
        Some(c) => c.to_owned(),
        None => resolved_socket.to_owned(),
    };
    let resolved = Endpoint::SocketPath(socket);
    if !same_endpoint(&resolved, &managed.endpoint) {
        let mut m: Vec<char> = Vec::new();
        extend_str(&mut m, "refusing to stop managed Herdr project `");
        extend_str(&mut m, managed.project_name.as_str());
        extend_str(&mut m, "`: its saved endpoint ");
        let a = describe_endpoint(&managed.endpoint);
        extend_str(&mut m, a.as_str());
        extend_str(&mut m, " now resolves to ");
        let b = describe_endpoint(&resolved);
        extend_str(&mut m, b.as_str());
        return Err(string_of(m.as_slice()));
    }
    Ok(())
}

/// Whether a managed workspace still has the project's identity: its
/// project name and label are the project name, and its root is the
/// project root.
pub open spec fn identity_ok(managed: ManagedWorkspace, name: Seq<char>, root: Seq<char>) -> bool {
    managed.project_name@ == name && managed.label@ == name && path_eq(managed.root_cwd@, root)
}

pub open spec fn identity_message(
    managed: ManagedWorkspace,
    config_path: Seq<char>,
    name: Seq<char>,
    root: Seq<char>,
) -> Seq<char> {
    "config "@ + config_path + " now resolves to label `"@ + name + "` and root "@ + root
        + ", but bootmux owns workspace `"@ + managed.workspace_id@ + "` as project `"@
        + managed.project_name@ + "`, label `"@ + managed.label@ + "`, and root "@
        + managed.root_cwd@
        + "; refusing an identity-mismatched lifecycle operation. Pass the same template settings used when the workspace was started."@
}

/// Refuses to operate on a managed workspace whose project name, label or
/// root no longer match what the config resolves to.
pub fn require_managed_project_identity(
    managed: &ManagedWorkspace,
    config_path: &str,
    name: &str,
    root: &str,
) -> (r: Result<(), String>)
    ensures
        match r {
            Ok(_) => identity_ok(*managed, name@, root@),
            Err(m) => !identity_ok(*managed, name@, root@) && m@ == identity_message(
                *managed,
                config_path@,
                name@,
                root@,
            ),
        },
{
    if !str_eq(managed.project_name.as_str(), name) || !str_eq(managed.label.as_str(), name)
        || !crate::herdr::paths_equal(managed.root_cwd.as_str(), root) {
        let mut m: Vec<char> = Vec::new();
        extend_str(&mut m, "config ");
        extend_str(&mut m, config_path);
        extend_str(&mut m, " now resolves to label `");
        extend_str(&mut m, name);
        extend_str(&mut m, "` and root ");
        extend_str(&mut m, root);
        extend_str(&mut m, ", but bootmux owns workspace `");
        extend_str(&mut m, managed.workspace_id.as_str());
        extend_str(&mut m, "` as project `");
        extend_str(&mut m, managed.project_name.as_str());
        extend_str(&mut m, "`, label `");
        extend_str(&mut m, managed.label.as_str());
        extend_str(&mut m, "`, and root ");
        extend_str(&mut m, managed.root_cwd.as_str());
        extend_str(
            &mut m,
            "; refusing an identity-mismatched lifecycle operation. Pass the same template settings used when the workspace was started.",
        );
        return Err(string_of(m.as_slice()));
    }
    Ok(())
}

pub open spec fn stop_hook_message(config_path: Seq<char>) -> Seq<char> {
    "config "@ + config_path
        + " now renders a different on_project_stop hook than the managed workspace snapshot; refusing to execute an unverified hook. Pass the same template settings used at start, restore the config, or start the project once to refresh its managed snapshot."@
}

/// Refuses to run a stop hook that differs from the one snapshotted when
/// the workspace was started (an absent hook renders as empty). State
/// written before hooks were snapshotted has no snapshot and passes.
pub fn require_managed_stop_hook_snapshot(
    managed: &ManagedWorkspace,
    config_path: &str,
    stop_hook: Option<&str>,
) -> (r: Result<(), String>)
    ensures
        ({
            let rendered = match stop_hook {
                Some(h) => h@,
                None => seq![],
            };
            match r {
                Ok(_) => managed.stop_hook matches Some(s) ==> s@ == rendered,
                Err(m) => (managed.stop_hook matches Some(s) && s@ != rendered) && m@
                    == stop_hook_message(config_path@),
            }
        }),
{
    let snapshot = match &managed.stop_hook {
        Some(s) => s,
        None => {
            return Ok(());
        },
    };
    let rendered: &str = match stop_hook {
        Some(h) => h,
        None => "",
    };
    proof {
        reveal_strlit("");
        assert(""@ =~= Seq::<char>::empty());
    }
    assert(rendered@ == match stop_hook {
        Some(h) => h@,
        None => seq![],
    });
    if !str_eq(snapshot.as_str(), rendered) {
        let mut m: Vec<char> = Vec::new();
        extend_str(&mut m, "config ");
        extend_str(&mut m, config_path);
        extend_str(
            &mut m,
            " now renders a different on_project_stop hook than the managed workspace snapshot; refusing to execute an unverified hook. Pass the same template settings used at start, restore the config, or start the project once to refresh its managed snapshot.",
        );
        return Err(string_of(m.as_slice()));
    }
    Ok(())
}

/// The snapshot of a stop hook kept in state: the rendered hook, empty when
/// there is none, so that a hook added later is never run by stop-all.
pub fn stop_hook_snapshot(stop_hook: Option<&str>) -> (r: Option<String>)
    ensures
        r matches Some(s) && s@ == match stop_hook {
            Some(h) => h@,
            None => seq![],
        },
{
    match stop_hook {
        Some(h) => Some(h.to_owned()),
        None => Some(String::new()),
    }
}


/// Entries on this endpoint for this config file.
pub open spec fn config_pred(e: EndpointView, config: Seq<char>) -> spec_fn(ManagedWorkspace) -> bool {
    |m: ManagedWorkspace| m.endpoint@ == e && path_eq(m.config_path@, config)
}

/// Entries on this endpoint for this config file and project name.
pub open spec fn project_pred(e: EndpointView, config: Seq<char>, name: Seq<char>) -> spec_fn(
    ManagedWorkspace,
) -> bool {
    |m: ManagedWorkspace| m.endpoint@ == e && path_eq(m.config_path@, config) && m.project_name@ == name
}

pub open spec fn ambiguous_message(config: Seq<char>, count: nat, name: Seq<char>) -> Seq<char> {
    "state contains multiple ownership entries for config "@ + config + " and "@
        + crate::zellij::decimal(count) + " match project name `"@ + name
        + "`; refusing an ambiguous operation."@
}

fn count_and_first(
    s: &Vec<ManagedWorkspace>,
    endpoint: &Endpoint,
    config: &str,
    name: Option<&str>,
) -> (r: (usize, usize))
    ensures
        ({
            let p = match name {
                Some(n) => project_pred(endpoint@, config@, n@),
                None => config_pred(endpoint@, config@),
            };
            let f = s@.filter(p);
            &&& r.0 == f.len()
            &&& f.len() > 0 ==> r.1 < s@.len() && s@[r.1 as int] == f[0]
        }),
{
    let ghost p = match name {
        Some(n) => project_pred(endpoint@, config@, n@),
        None => config_pred(endpoint@, config@),
    };
    let mut count: usize = 0;
    let mut first: usize = 0;
    let mut i: usize = 0;
    while i < s.len()
        invariant
            i <= s@.len(),
            p == (match name {
                Some(n) => project_pred(endpoint@, config@, n@),
                None => config_pred(endpoint@, config@),
            }),
            count == s@.take(i as int).filter(p).len(),
            count <= i,
            count > 0 ==> first < i && s@[first as int] == s@.take(i as int).filter(p)[0],
        decreases s.len() - i,
    {
        let m = &s[i];
        let hit = same_endpoint(&m.endpoint, endpoint) && crate::herdr::paths_equal(
            m.config_path.as_str(),
            config,
        ) && match name {
            Some(n) => str_eq(m.project_name.as_str(), n),
            None => true,
        };
        proof {
            assert(s@.take(i + 1) == s@.take(i as int).push(s@[i as int]));
            s@.take(i as int).lemma_filter_push(s@[i as int], p);
            assert(hit == p(s@[i as int]));
        }
        if hit {
            if count == 0 {
                first = i;
            }
            count += 1;
        }
        i += 1;
    }
    assert(s@.take(s@.len() as int) == s@);
    (count, first)
}

/// The entry that owns a project: the only one for its config file on this
/// endpoint, else the only one of those that also has its project name.
/// Several candidates are refused.
pub fn managed_for_spec<'a>(
    index: &'a StateIndex,
    endpoint: &Endpoint,
    config_path: &str,
    project_name: &str,
) -> (r: Result<Option<&'a ManagedWorkspace>, String>)
    ensures
        ({
            let s = index.managed_workspaces@;
            let bc = s.filter(config_pred(endpoint@, config_path@));
            let ex = s.filter(project_pred(endpoint@, config_path@, project_name@));
            if bc.len() == 0 {
                r matches Ok(None)
            } else if bc.len() == 1 {
                r matches Ok(Some(m)) && *m == bc[0]
            } else if ex.len() == 1 {
                r matches Ok(Some(m)) && *m == ex[0]
            } else {
                r matches Err(msg) && msg@ == ambiguous_message(
                    config_path@,
                    ex.len(),
                    project_name@,
                )
            }
        }),
{
    let (n1, f1) = count_and_first(&index.managed_workspaces, endpoint, config_path, None);
    if n1 == 0 {
        return Ok(None);
    }
    if n1 == 1 {
        return Ok(Some(&index.managed_workspaces[f1]));
    }
    let (n2, f2) = count_and_first(
        &index.managed_workspaces,
        endpoint,
        config_path,
        Some(project_name),
    );
    if n2 == 1 {
        return Ok(Some(&index.managed_workspaces[f2]));
    }
    let mut m: Vec<char> = Vec::new();
    extend_str(&mut m, "state contains multiple ownership entries for config ");
    extend_str(&mut m, config_path);
    extend_str(&mut m, " and ");
    let c = crate::zellij::decimal_string_u64(n2 as u64);
    extend_str(&mut m, c.as_str());
    extend_str(&mut m, " match project name `");
    extend_str(&mut m, project_name);
    extend_str(&mut m, "`; refusing an ambiguous operation.");
    Err(string_of(m.as_slice()))
}


pub open spec fn not_project(e: EndpointView, config: Seq<char>, name: Seq<char>) -> spec_fn(
    ManagedWorkspace,
) -> bool {
    |m: ManagedWorkspace| !project_pred(e, config, name)(m)
}

fn clone_entry(m: &ManagedWorkspace) -> (r: ManagedWorkspace)
    ensures
        r == *m,
{
    ManagedWorkspace {
        endpoint: clone_endpoint(&m.endpoint),
        launch_endpoint: match &m.launch_endpoint {
            Some(e) => Some(clone_endpoint(e)),
            None => None,
        },
        workspace_id: m.workspace_id.clone(),
        label: m.label.clone(),
        root_cwd: m.root_cwd.clone(),
        config_path: m.config_path.clone(),
        project_name: m.project_name.clone(),
        root_pane_id: clone_opt(&m.root_pane_id),
        stop_hook: clone_opt(&m.stop_hook),
    }
}

fn clone_opt(o: &Option<String>) -> (r: Option<String>)
    ensures
        r == *o,
{
    match o {
        Some(v) => Some(v.clone()),
        None => None,
    }
}

fn clone_endpoint(e: &Endpoint) -> (r: Endpoint)
    ensures
        r == *e,
{
    match e {
        Endpoint::Default => Endpoint::Default,
        Endpoint::NamedSession(n) => Endpoint::NamedSession(n.clone()),
        Endpoint::SocketPath(p) => Endpoint::SocketPath(p.clone()),
    }
}

/// Drops every entry of this project (endpoint, config file and project
/// name) from the state index.
pub fn remove_project_entries(
    index: &mut StateIndex,
    endpoint: &Endpoint,
    config_path: &str,
    project_name: &str,
)
    ensures
        final(index).version == old(index).version,
        final(index).managed_workspaces@ == old(index).managed_workspaces@.filter(
            not_project(endpoint@, config_path@, project_name@),
        ),
{
    let ghost s = index.managed_workspaces@;
    let ghost p = not_project(endpoint@, config_path@, project_name@);
    let mut kept: Vec<ManagedWorkspace> = Vec::new();
    let mut i: usize = 0;
    while i < index.managed_workspaces.len()
        invariant
            i <= s.len(),
            s == index.managed_workspaces@,
            p == not_project(endpoint@, config_path@, project_name@),
            kept@ == s.take(i as int).filter(p),
        decreases s.len() - i,
    {
        let m = &index.managed_workspaces[i];
        let hit = same_endpoint(&m.endpoint, endpoint) && crate::herdr::paths_equal(
            m.config_path.as_str(),
            config_path,
        ) && str_eq(m.project_name.as_str(), project_name);
        proof {
            assert(s.take(i + 1) == s.take(i as int).push(s[i as int]));
            s.take(i as int).lemma_filter_push(s[i as int], p);
            assert(hit == !p(s[i as int]));
        }
        if !hit {
            kept.push(clone_entry(m));
        }
        i += 1;
    }
    assert(s.take(s.len() as int) == s);
    index.managed_workspaces = kept;
}

/// Whether a pane of the workspace was launched in `root`.
pub open spec fn root_pane(p: crate::herdr::PaneInfo, workspace_id: Seq<char>, root: Seq<char>) -> bool {
    &&& p.workspace_id@ == workspace_id
    &&& p.cwd matches Some(c)
    &&& path_eq(c@, root)
}

/// The root pane of a workspace: the smallest id among its panes that
/// were launched in the project root.
/// The root pane of a workspace: the smallest pane id among its panes
/// launched in the root, if any.
pub open spec fn root_pane_choice(ps: Seq<crate::herdr::PaneInfo>, workspace_id: Seq<char>, root: Seq<char>, r: Option<String>) -> bool {
    match r {
        None => forall|i: int| 0 <= i < ps.len() ==> !root_pane(#[trigger] ps[i], workspace_id, root),
        Some(id) => (exists|i: int|
            0 <= i < ps.len() && root_pane(#[trigger] ps[i], workspace_id, root) && ps[i].pane_id@ == id@)
            && forall|i: int|
            0 <= i < ps.len() && root_pane(#[trigger] ps[i], workspace_id, root) ==> crate::herdr::seq_order(
                id@,
                ps[i].pane_id@,
            ) <= 0,
    }
}

pub fn root_pane_for(snapshot: &SessionSnapshot, workspace_id: &str, root: &str) -> (r: Option<
    String,
>)
    ensures
        root_pane_choice(snapshot.panes@, workspace_id@, root@, r),
{
    let ghost ps = snapshot.panes@;
    let mut best: Option<usize> = None;
    let mut i: usize = 0;
    while i < snapshot.panes.len()
        invariant
            i <= ps.len(),
            ps == snapshot.panes@,
            match best {
                None => forall|j: int| 0 <= j < i ==> !root_pane(#[trigger] ps[j], workspace_id@, root@),
                Some(b) => b < i && root_pane(ps[b as int], workspace_id@, root@) && forall|j: int|
                    0 <= j < i && root_pane(#[trigger] ps[j], workspace_id@, root@)
                        ==> crate::herdr::seq_order(ps[b as int].pane_id@, ps[j].pane_id@) <= 0,
            },
        decreases ps.len() - i,
    {
        let p = &snapshot.panes[i];
        let mut hit = false;
        if str_eq(p.workspace_id.as_str(), workspace_id) {
            if let Some(c) = &p.cwd {
                if crate::herdr::paths_equal(c.as_str(), root) {
                    hit = true;
                }
            }
        }
        assert(hit == root_pane(ps[i as int], workspace_id@, root@));
        if hit {
            match best {
                None => {
                    proof {
                        crate::herdr::lemma_seq_order_antisym(ps[i as int].pane_id@, ps[i as int].pane_id@);
                    }
                    best = Some(i);
                },
                Some(b) => {
                    let bc = chars_of(snapshot.panes[b].pane_id.as_str());
                    let pc = chars_of(p.pane_id.as_str());
                    let o = crate::herdr::order_chars(pc.as_slice(), bc.as_slice());
                    proof {
                        crate::herdr::lemma_seq_order_antisym(pc@, bc@);
                    }
                    if o < 0 {
                        proof {
                            assert forall|j: int|
                                0 <= j < i + 1 && root_pane(#[trigger] ps[j], workspace_id@, root@)
                                    implies crate::herdr::seq_order(ps[i as int].pane_id@, ps[j].pane_id@)
                                <= 0 by {
                                if j < i {
                                    let x = ps[i as int].pane_id@;
                                    let y = ps[b as int].pane_id@;
                                    let z = ps[j].pane_id@;
                                    if crate::herdr::seq_order(y, z) < 0 {
                                        crate::herdr::lemma_seq_order_transitive(x, y, z);
                                    } else {
                                        crate::herdr::lemma_seq_order_antisym(y, z);
                                    }
                                } else {
                                    crate::herdr::lemma_seq_order_antisym(ps[i as int].pane_id@, ps[i as int].pane_id@);
                                }
                            }
                        }
                        best = Some(i);
                    } else {
                        assert(crate::herdr::seq_order(ps[b as int].pane_id@, ps[i as int].pane_id@)
                            <= 0);
                    }
                },
            }
        }
        i += 1;
    }
    match best {
        Some(b) => Some(snapshot.panes[b].pane_id.clone()),
        None => None,
    }
}

} // verus!

verus! {

/// Refuses a layout share that Herdr cannot represent.
pub fn validate_herdr_ratios(layout: &crate::layout::Layout) -> (r: Result<(), String>)
    ensures
        match crate::pane_chain::first_unrepresentable(*layout) {
            None => r is Ok,
            Some(x) => r matches Err(m) && m@ == crate::pane_chain::unrepresentable_message(
                x,
                "Herdr"@,
            ),
        },
{
    crate::pane_chain::validate_representable(layout, "Herdr")
}

/// A window's layout tree.
pub fn layout_for(window: &crate::project_spec::WindowSpec) -> (r: Result<crate::layout::Layout, String>)
    ensures
        match r {
            Ok(l) => crate::project_spec::spec_layout_tree(window@) == Ok::<
                crate::layout::Layout,
                Seq<char>,
            >(l),
            Err(m) => crate::project_spec::spec_layout_tree(window@) == Err::<
                crate::layout::Layout,
                Seq<char>,
            >(m@),
        },
{
    window.layout_tree()
}

/// Checks every window before any Herdr lifecycle work: a late invalid
/// layout must not leave a half-built workspace behind.
pub fn preflight_spec(spec: &crate::project_spec::ProjectSpec) -> (r: Result<(), String>)
    ensures
        match r {
            Ok(_) => crate::zellij_backend::spec_windows_check(
                crate::project_spec::windows_view(spec.windows@),
                "Herdr"@,
            ) is Ok,
            Err(m) => crate::zellij_backend::spec_windows_check(
                crate::project_spec::windows_view(spec.windows@),
                "Herdr"@,
            ) == Err::<(), Seq<char>>(m@),
        },
{
    crate::zellij_backend::check_windows(spec, "Herdr")
}

} // verus!

verus! {

/// Whether a managed entry holds the config on another endpoint.
pub open spec fn on_other_endpoint(m: ManagedWorkspace, endpoint: EndpointView, config_path: Seq<char>) -> bool {
    m.config_path@ == config_path && m.endpoint@ != endpoint
}

/// The endpoints, as described to the user, of the entries that manage
/// `config_path` on another endpoint, in the entries' order.
pub open spec fn other_endpoint_names(entries: Seq<ManagedWorkspace>, endpoint: EndpointView, config_path: Seq<char>) -> Seq<Seq<char>>
    decreases entries.len(),
{
    if entries.len() == 0 {
        seq![]
    } else {
        other_endpoint_names(entries.drop_last(), endpoint, config_path) + if on_other_endpoint(
            entries.last(),
            endpoint,
            config_path,
        ) {
            seq![spec_describe_endpoint(entries.last().endpoint@)]
        } else {
            seq![]
        }
    }
}

/// A sequence without its adjacent repeats (`Vec::dedup`).
pub open spec fn dedup_adjacent(s: Seq<Seq<char>>) -> Seq<Seq<char>>
    decreases s.len(),
{
    if s.len() == 0 {
        seq![]
    } else if s.len() >= 2 && s[s.len() - 2] == s.last() {
        dedup_adjacent(s.drop_last())
    } else {
        dedup_adjacent(s.drop_last()).push(s.last())
    }
}

proof fn lemma_dedup_empty(s: Seq<Seq<char>>)
    ensures
        dedup_adjacent(s).len() == 0 <==> s.len() == 0,
    decreases s.len(),
{
    if s.len() >= 2 && s[s.len() - 2] == s.last() {
        lemma_dedup_empty(s.drop_last());
    }
}

/// Names joined by `, `.
pub open spec fn join_names(s: Seq<Seq<char>>) -> Seq<char>
    decreases s.len(),
{
    if s.len() == 0 {
        seq![]
    } else if s.len() == 1 {
        s[0]
    } else {
        join_names(s.drop_last()) + ", "@ + s.last()
    }
}

/// The refusal of a config managed on other endpoints, `sorted` being their
/// descriptions in order.
pub open spec fn other_endpoint_message(config_path: Seq<char>, sorted: Seq<Seq<char>>, current: Seq<char>) -> Seq<char> {
    "config "@ + config_path + " is managed on Herdr endpoint(s) "@ + join_names(dedup_adjacent(sorted))
        + ", but the current template settings select "@ + current
        + "; refusing a silent no-op. Pass the same socket settings used when the workspace was started."@
}

/// A config that bootmux manages on another Herdr endpoint is refused, so
/// that a stop with other socket settings is not a silent no-op. The
/// message names those endpoints, sorted and each once.
pub fn require_no_managed_config_on_other_endpoint(
    index: &StateIndex,
    endpoint: &Endpoint,
    config_path: &str,
) -> (r: Result<(), String>)
    ensures
        r is Ok <==> !exists|k: int|
            0 <= k < index.managed_workspaces@.len() && on_other_endpoint(
                #[trigger] index.managed_workspaces@[k],
                endpoint@,
                config_path@,
            ),
        r matches Err(m) ==> exists|sorted: Seq<Seq<char>>|
            crate::config::sorted_names(sorted) && sorted.to_multiset() == other_endpoint_names(
                index.managed_workspaces@,
                endpoint@,
                config_path@,
            ).to_multiset() && m@ == other_endpoint_message(config_path@, sorted, spec_describe_endpoint(endpoint@)),
{
    let ghost entries = index.managed_workspaces@;
    let mut others: Vec<String> = Vec::new();
    let mut k: usize = 0;
    while k < index.managed_workspaces.len()
        invariant
            k <= entries.len(),
            entries == index.managed_workspaces@,
            others@.len() == 0 <==> !exists|j: int|
                0 <= j < k && on_other_endpoint(#[trigger] entries[j], endpoint@, config_path@),
            others@.map_values(|s: String| s@) == other_endpoint_names(entries.take(k as int), endpoint@, config_path@),
        decreases index.managed_workspaces.len() - k,
    {
        let m = &index.managed_workspaces[k];
        proof {
            assert(entries.take(k + 1).drop_last() == entries.take(k as int));
            assert(entries.take(k + 1).last() == entries[k as int]);
        }
        let ghost before = others@;
        if str_eq(m.config_path.as_str(), config_path) && !crate::herdr::same_endpoint(&m.endpoint, endpoint) {
            let d = describe_endpoint(&m.endpoint);
            others.push(d);
            assert(on_other_endpoint(entries[k as int], endpoint@, config_path@));
            assert(others@.map_values(|s: String| s@) =~= before.map_values(|s: String| s@) + seq![d@]);
        } else {
            assert(others@.map_values(|s: String| s@) =~= before.map_values(|s: String| s@) + Seq::<Seq<char>>::empty());
        }
        k += 1;
    }
    proof {
        assert(entries.take(entries.len() as int) == entries);
    }
    if others.len() == 0 {
        return Ok(());
    }
    let sorted = crate::config::sort_names(others);
    let ghost sv = sorted@.map_values(|s: String| s@);
    let mut listed: Vec<char> = Vec::new();
    let mut i: usize = 0;
    while i < sorted.len()
        invariant
            i <= sorted@.len(),
            sv == sorted@.map_values(|s: String| s@),
            listed@ == join_names(dedup_adjacent(sv.take(i as int))),
        decreases sorted.len() - i,
    {
        let fresh = i == 0 || !str_eq(sorted[i - 1].as_str(), sorted[i].as_str());
        let ghost t = sv.take(i + 1);
        proof {
            assert(t.drop_last() == sv.take(i as int));
            assert(t.last() == sv[i as int]);
            if i > 0 {
                assert(t[t.len() - 2] == sv[i - 1]);
            }
            lemma_dedup_empty(sv.take(i as int));
        }
        if fresh {
            let ghost d = dedup_adjacent(sv.take(i as int));
            if i > 0 {
                extend_str(&mut listed, ", ");
            }
            extend_str(&mut listed, sorted[i].as_str());
            proof {
                assert(dedup_adjacent(t) == d.push(sv[i as int]));
                assert(d.push(sv[i as int]).drop_last() == d);
                if i > 0 {
                    assert(listed@ =~= join_names(d) + ", "@ + sv[i as int]);
                } else {
                    assert(listed@ =~= sv[i as int]);
                }
            }
        }
        i += 1;
    }
    proof {
        assert(sv.take(sv.len() as int) == sv);
    }
    let mut msg: Vec<char> = Vec::new();
    extend_str(&mut msg, "config ");
    extend_str(&mut msg, config_path);
    extend_str(&mut msg, " is managed on Herdr endpoint(s) ");
    crate::text::extend_chars(&mut msg, listed.as_slice());
    extend_str(&mut msg, ", but the current template settings select ");
    extend_str(&mut msg, describe_endpoint(endpoint).as_str());
    extend_str(
        &mut msg,
        "; refusing a silent no-op. Pass the same socket settings used when the workspace was started.",
    );
    proof {
        assert(msg@ =~= other_endpoint_message(config_path@, sv, spec_describe_endpoint(endpoint@)));
    }
    Err(string_of(msg.as_slice()))
}

} // verus!

verus! {

/// Whether an entry is the workspace bootmux runs inside.
pub open spec fn is_current(entry: ManagedWorkspace, current: Option<(Endpoint, String)>) -> bool {
    match current {
        Some((e, id)) => entry.workspace_id@ == id@ && entry.endpoint@ == e@,
        None => false,
    }
}

/// The order `stop-all` stops the managed workspaces in: the one bootmux
/// runs inside (given by its endpoint and workspace id) last, so stopping it
/// cannot cut the loop short; the others keep their order.
pub fn stop_all_order(entries: &Vec<ManagedWorkspace>, current: Option<(Endpoint, String)>) -> (r: Vec<
    ManagedWorkspace,
>)
    ensures
        r@ == entries@.filter(|m: ManagedWorkspace| !is_current(m, current)) + entries@.filter(
            |m: ManagedWorkspace| is_current(m, current),
        ),
{
    let ghost keep = |m: ManagedWorkspace| !is_current(m, current);
    let ghost last = |m: ManagedWorkspace| is_current(m, current);
    let mut front: Vec<ManagedWorkspace> = Vec::new();
    let mut back: Vec<ManagedWorkspace> = Vec::new();
    let mut i: usize = 0;
    assert(entries@.take(0) =~= Seq::<ManagedWorkspace>::empty());
    while i < entries.len()
        invariant
            i <= entries@.len(),
            keep == (|m: ManagedWorkspace| !is_current(m, current)),
            last == (|m: ManagedWorkspace| is_current(m, current)),
            front@ == entries@.take(i as int).filter(keep),
            back@ == entries@.take(i as int).filter(last),
        decreases entries.len() - i,
    {
        let m = &entries[i];
        let here = match &current {
            Some((e, id)) => str_eq(m.workspace_id.as_str(), id.as_str()) && crate::herdr::same_endpoint(
                &m.endpoint,
                e,
            ),
            None => false,
        };
        proof {
            let t = entries@.take(i + 1);
            assert(t.drop_last() == entries@.take(i as int));
            assert(t.last() == entries@[i as int]);
            reveal(Seq::filter);
        }
        if here {
            back.push(clone_entry(m));
        } else {
            front.push(clone_entry(m));
        }
        i += 1;
    }
    assert(entries@.take(entries@.len() as int) == entries@);
    let mut out = front;
    let mut j: usize = 0;
    let ghost f = out@;
    while j < back.len()
        invariant
            j <= back@.len(),
            out@ == f + back@.take(j as int),
        decreases back.len() - j,
    {
        out.push(clone_entry(&back[j]));
        assert(back@.take(j + 1) == back@.take(j as int).push(back@[j as int]));
        j += 1;
    }
    assert(back@.take(back@.len() as int) == back@);
    out
}

/// What `stop-all` does with one managed workspace.
#[derive(Debug, PartialEq, Eq)]
pub enum StopStep {
    /// The workspace is gone: its entry is dropped from the state.
    Forget,
    /// Run `hook` (when the entry has no snapshot, the config's own stop
    /// hook instead), close the workspace, then drop the entry and any entry
    /// of `workspace_id`.
    Close { workspace_id: String, hook: Option<String> },
}

/// The step for a managed workspace, from the workspace the snapshot
/// recovered for it, if any.
pub fn stop_all_step(entry: &ManagedWorkspace, recovered: Option<String>) -> (r: StopStep)
    ensures
        match recovered {
            None => r == StopStep::Forget,
            Some(id) => r == (StopStep::Close { workspace_id: id, hook: entry.stop_hook }),
        },
{
    match recovered {
        None => StopStep::Forget,
        Some(id) => StopStep::Close { workspace_id: id, hook: clone_opt(&entry.stop_hook) },
    }
}

} // verus!

verus! {

/// An element of a filtered sequence is an element of the sequence.
pub proof fn lemma_filter_member<A>(s: Seq<A>, p: spec_fn(A) -> bool, i: int)
    requires
        0 <= i < s.filter(p).len(),
    ensures
        s.contains(s.filter(p)[i]),
        p(s.filter(p)[i]),
    decreases s.len(),
{
    reveal(Seq::filter);
    s.lemma_filter_pred(p, i);
    if s.len() > 0 {
        let rest = s.drop_last().filter(p);
        if i < rest.len() {
            assert(s.filter(p)[i] == rest[i]);
            lemma_filter_member(s.drop_last(), p, i);
            let k = choose|k: int| 0 <= k < s.drop_last().len() && s.drop_last()[k] == rest[i];
            assert(s[k] == rest[i]);
        } else {
            assert(s.filter(p)[i] == s.last());
            assert(s[s.len() - 1] == s.last());
        }
    }
}

/// What starting a project does about its workspace.
#[derive(Debug)]
pub enum StartAction {
    /// Reuse the workspace bootmux manages for the project; `record`, when
    /// the entry changed, is stored in place of the entry of `managed_id`;
    /// `hook` (the project's `on_project_restart`) runs before it is shown.
    Reuse { workspace_id: String, managed_id: String, record: Option<ManagedWorkspace>, hook: Option<String> },
    /// Adopt the one workspace labelled and rooted like the project, storing
    /// `record` for it; `forget` names a managed entry whose workspace is
    /// gone; `hook` is `on_project_restart`, as for a reuse.
    Adopt { workspace_id: String, record: ManagedWorkspace, forget: Option<String>, hook: Option<String> },
    /// Create a workspace; `forget` as for `Adopt`; `hook` (the project's
    /// `on_project_first_start`) runs before the workspace is created.
    Create { forget: Option<String>, hook: Option<String> },
}

/// The entry that records a project's workspace.
pub open spec fn record_for(
    r: ManagedWorkspace,
    spec: crate::project_spec::ProjectView,
    endpoint: EndpointView,
    launch: EndpointView,
    workspace_id: Seq<char>,
) -> bool {
    &&& r.endpoint@ == endpoint
    &&& (r.launch_endpoint matches Some(l) && l@ == launch)
    &&& r.workspace_id@ == workspace_id
    &&& r.label@ == spec.name
    &&& r.root_cwd@ == spec.root
    &&& r.config_path@ == spec.source_path
    &&& r.project_name@ == spec.name
    &&& r.stop_hook matches Some(h) && h@ == match spec.hooks.stop {
        Some(s) => s,
        None => seq![],
    }
}

/// The entry the state index holds for a project, when it names one: the
/// one entry of its config on the endpoint, else, among several, the one
/// entry of the project.
pub open spec fn chosen_managed(s: Seq<ManagedWorkspace>, endpoint: EndpointView, config_path: Seq<char>, name: Seq<char>) -> Option<ManagedWorkspace> {
    let bc = s.filter(config_pred(endpoint, config_path));
    let ex = s.filter(project_pred(endpoint, config_path, name));
    if bc.len() == 1 {
        Some(bc[0])
    } else if bc.len() > 1 && ex.len() == 1 {
        Some(ex[0])
    } else {
        None
    }
}

/// Whether a snapshot has no workspace for a managed entry: none with its
/// id, and none labelled and rooted like it.
pub open spec fn snapshot_lost(snapshot: SessionSnapshot, m: ManagedWorkspace) -> bool {
    let ws = snapshot.workspaces@;
    &&& !exists|i: int| 0 <= i < ws.len() && (#[trigger] ws[i]).workspace_id@ == m.workspace_id@
    &&& ws.filter(crate::herdr::label_cwd_pred(snapshot.panes@, m.label@, m.root_cwd@)).len() == 0
}

/// The message of a recovery that found several workspaces labelled and
/// rooted like an entry.
pub open spec fn ambiguous_recovery_text(label: Seq<char>, root: Seq<char>, n: nat) -> Seq<char> {
    "cannot recover Herdr workspace: "@ + crate::zellij::decimal(n) + " exact matches for label `"@ + label
        + "` and cwd "@ + root
}

/// The message of a managed workspace whose id is still there under
/// another label or root.
pub open spec fn ownership_mismatch_text(id: Seq<char>, label: Seq<char>, root: Seq<char>) -> Seq<char> {
    "managed Herdr workspace `"@ + id + "` still exists but no longer matches owned label `"@ + label
        + "` and root "@ + root + "; refusing to discard ownership"@
}

/// Why a snapshot cannot answer for a managed entry, if it cannot: the
/// workspace with its id no longer carries its label and root, or, with no
/// workspace of that id, several carry them.
pub open spec fn recovery_refusal(snapshot: SessionSnapshot, m: ManagedWorkspace) -> Option<Seq<char>> {
    let ws = snapshot.workspaces@;
    let id = m.workspace_id@;
    if exists|i: int| 0 <= i < ws.len() && (#[trigger] ws[i]).workspace_id@ == id {
        let i = choose|i: int| crate::herdr::first_workspace(ws, id, i);
        if ws[i].label@ == m.label@ && crate::herdr::has_launch_cwd(snapshot.panes@, ws[i], m.root_cwd@) {
            None
        } else {
            Some(ownership_mismatch_text(id, m.label@, m.root_cwd@))
        }
    } else {
        let n = ws.filter(crate::herdr::label_cwd_pred(snapshot.panes@, m.label@, m.root_cwd@)).len();
        if n > 1 {
            Some(ambiguous_recovery_text(m.label@, m.root_cwd@, n))
        } else {
            None
        }
    }
}

/// Why a start is refused, if it is: the state's entries for the config are
/// ambiguous; the snapshot cannot answer for the chosen entry; the entry the
/// snapshot found no longer matches the project; or, with nothing to reuse,
/// several workspaces carry the project's label and root.
pub open spec fn start_refusal(
    entries: Seq<ManagedWorkspace>,
    endpoint: EndpointView,
    spec: crate::project_spec::ProjectView,
    snapshot: SessionSnapshot,
) -> Option<Seq<char>> {
    let bc = entries.filter(config_pred(endpoint, spec.source_path));
    let ex = entries.filter(project_pred(endpoint, spec.source_path, spec.name));
    let chosen = chosen_managed(entries, endpoint, spec.source_path, spec.name);
    let adoptable = snapshot.workspaces@.filter(crate::herdr::label_cwd_pred(snapshot.panes@, spec.name, spec.root));
    if bc.len() > 1 && ex.len() != 1 {
        Some(ambiguous_message(spec.source_path, ex.len(), spec.name))
    } else if chosen is Some && recovery_refusal(snapshot, chosen->0) is Some {
        recovery_refusal(snapshot, chosen->0)
    } else if chosen is Some && !snapshot_lost(snapshot, chosen->0) {
        if identity_ok(chosen->0, spec.name, spec.root) {
            None
        } else {
            Some(identity_message(chosen->0, spec.source_path, spec.name, spec.root))
        }
    } else if adoptable.len() > 1 {
        Some(ambiguous_recovery_text(spec.name, spec.root, adoptable.len()))
    } else {
        None
    }
}

/// The stop hook an entry records for a project.
pub open spec fn hook_snapshot(spec: crate::project_spec::ProjectView) -> Seq<char> {
    match spec.hooks.stop {
        Some(s) => s,
        None => seq![],
    }
}

/// Whether a reused entry must be stored again: its workspace has a new
/// id, it lacks the launch selector, or its stop hook changed.
pub open spec fn entry_stale(m: ManagedWorkspace, live_id: Seq<char>, spec: crate::project_spec::ProjectView) -> bool {
    ||| live_id != m.workspace_id@
    ||| m.launch_endpoint is None
    ||| crate::project_spec::opt_str(m.stop_hook) != Some(hook_snapshot(spec))
}

/// The entry stored again for a reused workspace: `m` with the live id
/// (and the root pane of that workspace when the id changed), the launch
/// selector when it had none, and the current stop hook.
pub open spec fn refreshed_entry(
    rec: ManagedWorkspace,
    m: ManagedWorkspace,
    live_id: Seq<char>,
    launch: Endpoint,
    spec: crate::project_spec::ProjectView,
    snapshot: SessionSnapshot,
) -> bool {
    &&& rec.endpoint == m.endpoint
    &&& rec.label == m.label
    &&& rec.root_cwd == m.root_cwd
    &&& rec.config_path == m.config_path
    &&& rec.project_name == m.project_name
    &&& rec.workspace_id@ == live_id
    &&& if live_id != m.workspace_id@ {
        root_pane_choice(snapshot.panes@, live_id, spec.root, rec.root_pane_id)
    } else {
        rec.root_pane_id == m.root_pane_id
    }
    &&& rec.launch_endpoint == match m.launch_endpoint {
        Some(l) => Some(l),
        None => Some(launch),
    }
    &&& crate::project_spec::opt_str(rec.stop_hook) == Some(hook_snapshot(spec))
}

/// What becomes of the project's entry when no workspace is reused: with no
/// entry there is nothing to forget; an entry whose workspace the snapshot
/// lost is forgotten.
pub open spec fn nothing_to_reuse(chosen: Option<ManagedWorkspace>, snapshot: SessionSnapshot, forget: Option<String>) -> bool {
    match chosen {
        None => forget is None,
        Some(m) => snapshot_lost(snapshot, m) && (forget matches Some(f) && f@ == m.workspace_id@),
    }
}

/// Decides a start from the state index and a snapshot of the server: a
/// managed workspace that the snapshot still holds is reused (its identity
/// checked), else the one workspace labelled and rooted like the project is
/// adopted, else a workspace is created. `launch` is the selector the client
/// was started with.
pub fn start_decision(
    index: &StateIndex,
    endpoint: &Endpoint,
    launch: &Endpoint,
    spec: &crate::project_spec::ProjectSpec,
    snapshot: &SessionSnapshot,
) -> (r: Result<StartAction, String>)
    ensures
        ({
            let ws = snapshot.workspaces@;
            let adoptable = ws.filter(crate::herdr::label_cwd_pred(snapshot.panes@, spec@.name, spec@.root));
            match r {
                Ok(StartAction::Reuse { workspace_id, managed_id, record, hook }) => crate::project_spec::opt_str(hook)
                    == spec@.hooks.restart && exists|m: ManagedWorkspace, k: int|
                    #[trigger] index.managed_workspaces@.contains(m) && config_pred(endpoint@, spec@.source_path)(m)
                        && identity_ok(m, spec@.name, spec@.root) && m.workspace_id@ == managed_id@
                        && 0 <= k < ws.len() && (#[trigger] ws[k]).workspace_id@ == workspace_id@
                        && crate::herdr::label_cwd_pred(snapshot.panes@, m.label@, m.root_cwd@)(ws[k])
                        && (record is Some <==> entry_stale(m, workspace_id@, spec@))
                        && (record matches Some(rec) ==> refreshed_entry(rec, m, workspace_id@, *launch, spec@, *snapshot))
                        && chosen_managed(index.managed_workspaces@, endpoint@, spec@.source_path, spec@.name) == Some(m),
                Ok(StartAction::Adopt { workspace_id, record, hook, forget }) => crate::project_spec::opt_str(hook)
                    == spec@.hooks.restart && nothing_to_reuse(
                    chosen_managed(index.managed_workspaces@, endpoint@, spec@.source_path, spec@.name),
                    *snapshot,
                    forget,
                ) && adoptable.len() == 1
                    && adoptable[0].workspace_id@ == workspace_id@ && record_for(
                    record,
                    spec@,
                    endpoint@,
                    launch@,
                    workspace_id@,
                ),
                Ok(StartAction::Create { hook, forget }) => crate::project_spec::opt_str(hook)
                    == spec@.hooks.first_start && nothing_to_reuse(
                    chosen_managed(index.managed_workspaces@, endpoint@, spec@.source_path, spec@.name),
                    *snapshot,
                    forget,
                ) && adoptable.len() == 0,
                Err(_) => true,
            }
        }),
        r is Err <==> start_refusal(index.managed_workspaces@, endpoint@, spec@, *snapshot) is Some,
        r matches Err(msg) ==> start_refusal(index.managed_workspaces@, endpoint@, spec@, *snapshot) == Some(msg@),
{
    let managed = managed_for_spec(index, endpoint, spec.source_path.as_str(), spec.name.as_str())?;
    let mut forget: Option<String> = None;
    if let Some(m) = managed {
        proof {
            let s = index.managed_workspaces@;
            let bc = s.filter(config_pred(endpoint@, spec@.source_path));
            let ex = s.filter(project_pred(endpoint@, spec@.source_path, spec@.name));
            if bc.len() == 1 {
                lemma_filter_member(s, config_pred(endpoint@, spec@.source_path), 0);
            } else {
                lemma_filter_member(s, project_pred(endpoint@, spec@.source_path, spec@.name), 0);
            }
        }
        assert(index.managed_workspaces@.contains(*m));
        match snapshot.recover_workspace(m) {
            Err(e) => {
                return Err(e.message());
            },
            Ok(Some(found)) => {
                require_managed_project_identity(m, spec.source_path.as_str(), spec.name.as_str(), spec.root.as_str())?;
                let existing_id = found.workspace.workspace_id.clone();
                let ghost k: int = choose|k: int| 0 <= k < snapshot.workspaces@.len() && snapshot.workspaces@[k] == *found.workspace;
                proof {
                    let ws = snapshot.workspaces@;
                    let p = crate::herdr::label_cwd_pred(snapshot.panes@, m.label@, m.root_cwd@);
                    if exists|i: int| 0 <= i < ws.len() && (#[trigger] ws[i]).workspace_id@ == m.workspace_id@ {
                    } else {
                        lemma_filter_member(ws, p, 0);
                    }
                }
                let mut record = clone_entry(m);
                let mut changed = false;
                if !str_eq(existing_id.as_str(), m.workspace_id.as_str()) {
                    record.workspace_id = existing_id.clone();
                    record.root_pane_id = root_pane_for(snapshot, existing_id.as_str(), spec.root.as_str());
                    changed = true;
                }
                if record.launch_endpoint.is_none() {
                    record.launch_endpoint = Some(clone_endpoint(launch));
                    changed = true;
                }
                let stop_hook = stop_hook_snapshot(match &spec.hooks.stop {
                    Some(h) => Some(h.as_str()),
                    None => None,
                });
                let same_hook = match (&record.stop_hook, &stop_hook) {
                    (Some(a), Some(b)) => str_eq(a.as_str(), b.as_str()),
                    (None, None) => true,
                    _ => false,
                };
                if !same_hook {
                    record.stop_hook = stop_hook;
                    changed = true;
                }
                assert(record.workspace_id@ == existing_id@ || record.workspace_id@ == m.workspace_id@);
                let managed_id = m.workspace_id.clone();
                return Ok(StartAction::Reuse {
                    workspace_id: existing_id,
                    managed_id,
                    record: if changed { Some(record) } else { None },
                    hook: crate::project_spec::clone_opt_string(&spec.hooks.restart),
                });
            },
            Ok(None) => {
                forget = Some(m.workspace_id.clone());
            },
        }
    }
    match snapshot.workspace_by_unique_exact_label_and_root_cwd(spec.name.as_str(), spec.root.as_str()) {
        Err(e) => Err(e.message()),
        Ok(Some(w)) => {
            let workspace_id = w.workspace_id.clone();
            let record = ManagedWorkspace {
                endpoint: clone_endpoint(endpoint),
                launch_endpoint: Some(clone_endpoint(launch)),
                workspace_id: workspace_id.clone(),
                label: spec.name.clone(),
                root_cwd: spec.root.clone(),
                config_path: spec.source_path.clone(),
                project_name: spec.name.clone(),
                root_pane_id: root_pane_for(snapshot, workspace_id.as_str(), spec.root.as_str()),
                stop_hook: stop_hook_snapshot(match &spec.hooks.stop {
                    Some(h) => Some(h.as_str()),
                    None => None,
                }),
            };
            Ok(StartAction::Adopt {
                workspace_id,
                record,
                forget,
                hook: crate::project_spec::clone_opt_string(&spec.hooks.restart),
            })
        },
        Ok(None) => Ok(StartAction::Create { forget, hook: crate::project_spec::clone_opt_string(&spec.hooks.first_start) }),
    }
}


/// What a start reports when building a new workspace failed with `error`:
/// the workspace was closed again (`rollback` is `Ok`), or closing it failed
/// and its ownership was kept for a later stop (`retained` is `Ok`) or could
/// not be stored either.
pub open spec fn spec_build_failure(error: Seq<char>, rollback: Result<(), Seq<char>>, retained: Result<(), Seq<char>>) -> Seq<char> {
    match rollback {
        Ok(()) => "new Herdr workspace was rolled back: "@ + error,
        Err(re) => match retained {
            Ok(()) => "workspace rollback failed and ownership was retained for a later stop: "@ + re + ": "@
                + error,
            Err(se) => "workspace rollback failed ("@ + re + ") and ownership could not be persisted ("@ + se
                + "): "@ + error,
        },
    }
}

/// The message of a failed build; `retained` is what storing the retained
/// ownership gave, when the rollback failed.
pub fn build_failure_message(error: &str, rollback: &Result<(), String>, retained: &Result<(), String>) -> (r: String)
    ensures
        r@ == spec_build_failure(
            error@,
            match rollback {
                Ok(()) => Ok::<(), Seq<char>>(()),
                Err(e) => Err::<(), Seq<char>>(e@),
            },
            match retained {
                Ok(()) => Ok::<(), Seq<char>>(()),
                Err(e) => Err::<(), Seq<char>>(e@),
            },
        ),
{
    let mut m: Vec<char> = Vec::new();
    match rollback {
        Ok(()) => {
            extend_str(&mut m, "new Herdr workspace was rolled back: ");
        },
        Err(re) => match retained {
            Ok(()) => {
                extend_str(&mut m, "workspace rollback failed and ownership was retained for a later stop: ");
                extend_str(&mut m, re.as_str());
                extend_str(&mut m, ": ");
            },
            Err(se) => {
                extend_str(&mut m, "workspace rollback failed (");
                extend_str(&mut m, re.as_str());
                extend_str(&mut m, ") and ownership could not be persisted (");
                extend_str(&mut m, se.as_str());
                extend_str(&mut m, "): ");
            },
        },
    }
    extend_str(&mut m, error);
    string_of(m.as_slice())
}

/// What a start reports when storing the new workspace's ownership failed
/// with `error`: the workspace was closed again, or closing it failed too.
pub open spec fn spec_persist_failure(error: Seq<char>, rollback: Result<(), Seq<char>>) -> Seq<char> {
    match rollback {
        Ok(()) => "failed to persist ownership; new Herdr workspace was rolled back: "@ + error,
        Err(re) => "failed to persist ownership and workspace rollback failed: "@ + re + ": "@ + error,
    }
}

pub fn persist_failure_message(error: &str, rollback: &Result<(), String>) -> (r: String)
    ensures
        r@ == spec_persist_failure(
            error@,
            match rollback {
                Ok(()) => Ok::<(), Seq<char>>(()),
                Err(e) => Err::<(), Seq<char>>(e@),
            },
        ),
{
    let mut m: Vec<char> = Vec::new();
    match rollback {
        Ok(()) => {
            extend_str(&mut m, "failed to persist ownership; new Herdr workspace was rolled back: ");
        },
        Err(re) => {
            extend_str(&mut m, "failed to persist ownership and workspace rollback failed: ");
            extend_str(&mut m, re.as_str());
            extend_str(&mut m, ": ");
        },
    }
    extend_str(&mut m, error);
    string_of(m.as_slice())
}


/// The socket paths the environment names for the Herdr client bootmux runs
/// in, in this order, the empty ones left out.
pub open spec fn spec_socket_variables(env: Seq<(String, String)>) -> Seq<Seq<char>> {
    (match lookup(env, "HERDR_SOCKET_PATH"@) {
        Some(v) if v.len() > 0 => seq![v],
        _ => seq![],
    }) + (match lookup(env, "HERDR_CLIENT_SOCKET_PATH"@) {
        Some(v) if v.len() > 0 => seq![v],
        _ => seq![],
    })
}

/// The socket paths to resolve before asking whether bootmux runs attached
/// to an endpoint.
pub fn socket_variables(env: &Env) -> (r: Vec<String>)
    ensures
        strings_view(r@) == spec_socket_variables(env.all@),
{
    let mut out: Vec<String> = Vec::new();
    match env.var("HERDR_SOCKET_PATH") {
        Some(v) => if !v.as_str().is_empty() {
            out.push(v.clone());
        },
        None => {},
    }
    let ghost first = strings_view(out@);
    match env.var("HERDR_CLIENT_SOCKET_PATH") {
        Some(v) => if !v.as_str().is_empty() {
            out.push(v.clone());
        },
        None => {},
    }
    proof {
        reveal_strlit("HERDR_SOCKET_PATH");
        reveal_strlit("HERDR_CLIENT_SOCKET_PATH");
    }
    assert(strings_view(out@) =~= spec_socket_variables(env.all@));
    out
}

/// Whether bootmux runs inside a Herdr client attached to `canonical`: it
/// runs inside Herdr, the endpoint is a socket path, and one of the
/// environment's sockets, resolved (`resolved`, in the order of
/// `socket_variables`), is that path.
pub fn attached_to_socket(env: &Env, canonical: &Endpoint, resolved: &Vec<String>) -> (r: bool)
    ensures
        r == (spec_inside_herdr(env.all@) && (canonical@ matches EndpointView::SocketPath(t) && exists|i: int|
            0 <= i < resolved@.len() && crate::herdr::path_eq((#[trigger] resolved@[i])@, t))),
{
    if !running_inside_herdr(env) {
        return false;
    }
    let target = match canonical {
        Endpoint::SocketPath(t) => t,
        _ => {
            return false;
        },
    };
    let mut i: usize = 0;
    while i < resolved.len()
        invariant
            i <= resolved@.len(),
            canonical@ == EndpointView::SocketPath(target@),
            spec_inside_herdr(env.all@),
            forall|j: int| 0 <= j < i ==> !crate::herdr::path_eq((#[trigger] resolved@[j])@, target@),
        decreases resolved.len() - i,
    {
        if crate::herdr::paths_equal(resolved[i].as_str(), target.as_str()) {
            assert(crate::herdr::path_eq(resolved@[i as int]@, target@));
            return true;
        }
        i += 1;
    }
    false
}

/// The workspace `--append` adds tabs to: the active Herdr workspace.
pub fn append_workspace(env: &Env) -> (r: Result<String, String>)
    ensures
        match spec_current_workspace(*env) {
            Some(id) => r matches Ok(w) && w@ == id,
            None => r matches Err(m) && m@ == "`--append` with Herdr requires running inside a Herdr workspace or popup."@,
        },
{
    match current_workspace_id(env) {
        Some(id) => Ok(id),
        None => Err("`--append` with Herdr requires running inside a Herdr workspace or popup.".to_string()),
    }
}


/// What `std::path::Path::file_name` gives for a path, as a string.
pub uninterp spec fn path_file_name(path: Seq<char>) -> Option<Seq<char>>;

/// Calls `std::path::Path::file_name`: the final component, `None` where
/// the path has none. Nothing more of it is stated.
#[verifier::external_body]
fn file_name_of(path: &str) -> (r: Option<String>)
    ensures
        match r {
            Some(s) => path_file_name(path@) == Some(s@),
            None => path_file_name(path@) is None,
        },
{
    std::path::Path::new(path).file_name().and_then(|name| name.to_str()).map(|name| name.to_string())
}

/// A foreground process of a Herdr pane: its `name` and `argv0`, where
/// Herdr gives them as strings.
pub struct ForegroundProcess {
    pub name: Option<String>,
    pub argv0: Option<String>,
}

/// Whether a process is tmux by the base name of its `name` or `argv0`.
pub open spec fn process_is_tmux(p: ForegroundProcess) -> bool {
    ||| (p.name matches Some(n) && path_file_name(n@) == Some("tmux"@))
    ||| (p.argv0 matches Some(a) && path_file_name(a@) == Some("tmux"@))
}

fn base_is_tmux(value: &Option<String>) -> (r: bool)
    ensures
        r == (value matches Some(v) && path_file_name(v@) == Some("tmux"@)),
{
    match value {
        Some(v) => match file_name_of(v.as_str()) {
            Some(base) => crate::text::str_eq(base.as_str(), "tmux"),
            None => false,
        },
        None => false,
    }
}

/// The backend in the foreground of a Herdr pane, from the processes
/// `pane process-info` reports: unknown when there are none, tmux when one
/// of them is tmux, else Herdr.
pub fn process_info_backend(processes: &Vec<ForegroundProcess>) -> (r: Option<crate::settings::Backend>)
    ensures
        processes@.len() == 0 ==> r is None,
        processes@.len() > 0 ==> r == Some(
            if exists|k: int| 0 <= k < processes@.len() && process_is_tmux(#[trigger] processes@[k]) {
                crate::settings::Backend::Tmux
            } else {
                crate::settings::Backend::Herdr
            },
        ),
{
    if processes.len() == 0 {
        return None;
    }
    let mut k: usize = 0;
    while k < processes.len()
        invariant
            k <= processes@.len(),
            forall|j: int| 0 <= j < k ==> !process_is_tmux(#[trigger] processes@[j]),
        decreases processes.len() - k,
    {
        if base_is_tmux(&processes[k].name) || base_is_tmux(&processes[k].argv0) {
            assert(process_is_tmux(processes@[k as int]));
            return Some(crate::settings::Backend::Tmux);
        }
        k += 1;
    }
    Some(crate::settings::Backend::Herdr)
}

} // verus!
