//! Requests to Herdr's public API.

use std::collections::HashMap;
use vstd::prelude::*;

use crate::workspace;
use crate::text;
use crate::ssh::herdr::metadata;
use crate::maps::keys_of;
use crate::ssh::command::ControlCommand;
use crate::ssh::flow::FlowFailure;
use crate::ssh::herdr::metadata::{find_group_workspace, Metadata, RemotePane};
use crate::ssh::state::SessionState;
use crate::text::{push_decimal, same_text};

verus! {

broadcast use vstd::std_specs::hash::group_hash_axioms;

/// A method of the API.
#[derive(Clone, Copy, Debug, PartialEq, Eq, Structural)]
pub enum ApiMethod {
    WorkspaceCreate,
    WorkspaceRename,
    WorkspaceClose,
    TabCreate,
    TabRename,
    TabClose,
    PaneSplit,
    PaneRename,
    PaneClose,
}

pub open spec fn method_text(method: ApiMethod) -> Seq<char> {
    match method {
        ApiMethod::WorkspaceCreate => "workspace.create"@,
        ApiMethod::WorkspaceRename => "workspace.rename"@,
        ApiMethod::WorkspaceClose => "workspace.close"@,
        ApiMethod::TabCreate => "tab.create"@,
        ApiMethod::TabRename => "tab.rename"@,
        ApiMethod::TabClose => "tab.close"@,
        ApiMethod::PaneSplit => "pane.split"@,
        ApiMethod::PaneRename => "pane.rename"@,
        ApiMethod::PaneClose => "pane.close"@,
    }
}

impl ApiMethod {
    pub fn name(self) -> (r: &'static str)
        ensures
            r@ == method_text(self),
    {
        match self {
            ApiMethod::WorkspaceCreate => "workspace.create",
            ApiMethod::WorkspaceRename => "workspace.rename",
            ApiMethod::WorkspaceClose => "workspace.close",
            ApiMethod::TabCreate => "tab.create",
            ApiMethod::TabRename => "tab.rename",
            ApiMethod::TabClose => "tab.close",
            ApiMethod::PaneSplit => "pane.split",
            ApiMethod::PaneRename => "pane.rename",
            ApiMethod::PaneClose => "pane.close",
        }
    }

    /// Whether the direct terminal is released first, so that its end cannot
    /// be taken for a fault of the connection.
    pub fn releases_terminal(self) -> (r: bool)
        ensures
            r == !(self == ApiMethod::WorkspaceRename || self == ApiMethod::TabRename || self
                == ApiMethod::PaneRename),
    {
        match self {
            ApiMethod::WorkspaceRename | ApiMethod::TabRename | ApiMethod::PaneRename => false,
            _ => true,
        }
    }
}

/// A value of a request.
#[derive(Debug, PartialEq, Eq)]
pub enum ApiValue {
    Text(String),
    Flag(bool),
}

pub enum ApiValueView {
    Text(Seq<char>),
    Flag(bool),
}

impl View for ApiValue {
    type V = ApiValueView;

    open spec fn view(&self) -> ApiValueView {
        match self {
            ApiValue::Text(text) => ApiValueView::Text(text@),
            ApiValue::Flag(flag) => ApiValueView::Flag(*flag),
        }
    }
}

/// A named value of a request.
#[derive(Debug, PartialEq, Eq)]
pub struct ApiParam {
    pub name: &'static str,
    pub value: ApiValue,
}

/// A request, in the order of its parameters.
#[derive(Debug, PartialEq, Eq)]
pub struct ApiRequest {
    pub method: ApiMethod,
    pub params: Vec<ApiParam>,
}

pub struct ApiParamView {
    pub name: Seq<char>,
    pub value: ApiValueView,
}

pub struct ApiRequestView {
    pub method: ApiMethod,
    pub params: Seq<ApiParamView>,
}

pub open spec fn param_views(params: Seq<ApiParam>) -> Seq<ApiParamView> {
    Seq::new(
        params.len(),
        |i: int| ApiParamView { name: params[i].name@, value: params[i].value@ },
    )
}

impl View for ApiRequest {
    type V = ApiRequestView;

    open spec fn view(&self) -> ApiRequestView {
        ApiRequestView { method: self.method, params: param_views(self.params@) }
    }
}

pub open spec fn text_param(name: Seq<char>, value: Seq<char>) -> ApiParamView {
    ApiParamView { name, value: ApiValueView::Text(value) }
}

pub open spec fn flag_param(name: Seq<char>, value: bool) -> ApiParamView {
    ApiParamView { name, value: ApiValueView::Flag(value) }
}

fn with_text(params: Vec<ApiParam>, name: &'static str, value: String) -> (r: Vec<ApiParam>)
    ensures
        param_views(r@) == param_views(params@).push(text_param(name@, value@)),
{
    let mut out = params;
    out.push(ApiParam { name, value: ApiValue::Text(value) });
    assert(param_views(out@) =~= param_views(params@).push(text_param(name@, value@)));
    out
}

fn with_flag(params: Vec<ApiParam>, name: &'static str, value: bool) -> (r: Vec<ApiParam>)
    ensures
        param_views(r@) == param_views(params@).push(flag_param(name@, value)),
{
    let mut out = params;
    out.push(ApiParam { name, value: ApiValue::Flag(value) });
    assert(param_views(out@) =~= param_views(params@).push(flag_param(name@, value)));
    out
}

fn no_params() -> (r: Vec<ApiParam>)
    ensures
        param_views(r@) == Seq::<ApiParamView>::empty(),
{
    let out: Vec<ApiParam> = Vec::new();
    assert(param_views(out@) =~= Seq::<ApiParamView>::empty());
    out
}

/// The pane belongs to the group of the workspace.
pub open spec fn stands_in(remote: RemotePane, workspace: u64, group: u64) -> bool {
    remote.workspace == workspace && remote.group == group
}

/// Some pane of the group.
pub open spec fn any_in(panes: Map<u64, RemotePane>, workspace: u64, group: u64) -> bool {
    exists|h: u64| #[trigger] panes.contains_key(h) && stands_in(panes[h], workspace, group)
}

/// The pane that a new one is split from: the selected one, where it is in the
/// selected group of the workspace; else some pane of that group.
pub open spec fn splits_from(state: SessionState, workspace: u64, pane_id: Seq<char>) -> bool {
    let m = state.herdr;
    let group = m.selected_groups@[workspace];
    &&& m.selected_groups@.contains_key(workspace)
    &&& if state.selected_pane is Some && m.panes@.contains_key(state.selected_pane->0)
        && stands_in(m.panes@[state.selected_pane->0], workspace, group) {
        pane_id == m.panes@[state.selected_pane->0].pane_id@
    } else {
        exists|h: u64|
            #[trigger] m.panes@.contains_key(h) && stands_in(m.panes@[h], workspace, group)
                && pane_id == m.panes@[h].pane_id@
    }
}

/// Nothing can be split in the workspace.
pub open spec fn splits_nothing(state: SessionState, workspace: u64) -> bool {
    let m = state.herdr;
    !m.selected_groups@.contains_key(workspace) || !any_in(
        m.panes@,
        workspace,
        m.selected_groups@[workspace],
    )
}

fn find_in(panes: &HashMap<u64, RemotePane>, workspace: u64, group: u64) -> (r: Option<String>)
    ensures
        match r {
            Some(id) => exists|h: u64|
                #[trigger] panes@.contains_key(h) && stands_in(panes@[h], workspace, group) && id@
                    == panes@[h].pane_id@,
            None => !any_in(panes@, workspace, group),
        },
{
    let keys = keys_of(panes);
    let mut i: usize = 0;
    while i < keys.len()
        invariant
            i <= keys@.len(),
            forall|k: u64| #[trigger] keys@.contains(k) <==> panes@.contains_key(k),
            forall|k: int|
                0 <= k < i ==> panes@.contains_key(#[trigger] keys@[k]) && !stands_in(
                    panes@[keys@[k]],
                    workspace,
                    group,
                ),
        decreases keys@.len() - i,
    {
        assert(keys@.contains(keys@[i as int]));
        match panes.get(&keys[i]) {
            Some(remote) => {
                if remote.workspace == workspace && remote.group == group {
                    assert(panes@.contains_key(keys@[i as int]));
                    return Some(remote.pane_id.clone());
                }
            },
            None => {},
        }
        i = i + 1;
    }
    proof {
        if any_in(panes@, workspace, group) {
            let h = choose|h: u64|
                #[trigger] panes@.contains_key(h) && stands_in(panes@[h], workspace, group);
            assert(keys@.contains(h));
            let k = choose|k: int| 0 <= k < keys@.len() && keys@[k] == h;
            assert(!stands_in(panes@[keys@[k]], workspace, group));
        }
    }
    None
}

fn split_source(state: &SessionState, workspace: u64) -> (r: Option<String>)
    ensures
        match r {
            Some(id) => splits_from(*state, workspace, id@),
            None => splits_nothing(*state, workspace),
        },
{
    let group: u64 = match state.herdr.selected_groups.get(&workspace) {
        Some(group) => *group,
        None => {
            return None;
        },
    };
    match state.selected_pane {
        Some(pane) => match state.herdr.panes.get(&pane) {
            Some(remote) => {
                if remote.workspace == workspace && remote.group == group {
                    return Some(remote.pane_id.clone());
                }
            },
            None => {},
        },
        None => {},
    }
    find_in(&state.herdr.panes, workspace, group)
}

/// The request for a command that changes the runtime, where it is determined
/// by what is known.  A split has its own rule, [`splits_from`].
pub open spec fn request_for(command: ControlCommand, m: Metadata) -> Result<
    ApiRequestView,
    FlowFailure,
> {
    match command {
        ControlCommand::CreateWorkspace { name } => Ok(
            ApiRequestView {
                method: ApiMethod::WorkspaceCreate,
                params: seq![text_param("label"@, name@), flag_param("focus"@, false)],
            },
        ),
        ControlCommand::RenameWorkspace { window_id, name } => if m.workspaces@.contains_key(
            window_id,
        ) {
            Ok(
                ApiRequestView {
                    method: ApiMethod::WorkspaceRename,
                    params: seq![
                        text_param("workspace_id"@, m.workspaces@[window_id]@),
                        text_param("label"@, name@),
                    ],
                },
            )
        } else {
            Err(FlowFailure::HerdrOperation)
        },
        ControlCommand::CloseWorkspace { window_id } => if m.workspaces@.contains_key(window_id) {
            Ok(
                ApiRequestView {
                    method: ApiMethod::WorkspaceClose,
                    params: seq![
                        text_param("workspace_id"@, m.workspaces@[window_id]@),
                        flag_param("close_group"@, false),
                    ],
                },
            )
        } else {
            Err(FlowFailure::HerdrOperation)
        },
        ControlCommand::CreateGroup { window_id, name } => if m.workspaces@.contains_key(
            window_id,
        ) {
            Ok(
                ApiRequestView {
                    method: ApiMethod::TabCreate,
                    params: seq![
                        text_param("workspace_id"@, m.workspaces@[window_id]@),
                        text_param("label"@, name@),
                        flag_param("focus"@, false),
                    ],
                },
            )
        } else {
            Err(FlowFailure::HerdrOperation)
        },
        ControlCommand::RenameGroup { group_id, name } => if m.groups@.contains_key(group_id) {
            Ok(
                ApiRequestView {
                    method: ApiMethod::TabRename,
                    params: seq![
                        text_param("tab_id"@, m.groups@[group_id]@),
                        text_param("label"@, name@),
                    ],
                },
            )
        } else {
            Err(FlowFailure::HerdrOperation)
        },
        ControlCommand::CloseGroup { group_id } => match metadata::workspace_of_group(
            workspace::group_views(m.snapshot.groups@),
            group_id,
        ) {
            None => Err(FlowFailure::HerdrOperation),
            Some(workspace) => if m.linked_worktree_parents@.contains(workspace) {
                Err(FlowFailure::HerdrWorkspaceGroup)
            } else if m.groups@.contains_key(group_id) {
                Ok(
                    ApiRequestView {
                        method: ApiMethod::TabClose,
                        params: seq![text_param("tab_id"@, m.groups@[group_id]@)],
                    },
                )
            } else {
                Err(FlowFailure::HerdrOperation)
            },
        },
        ControlCommand::RenamePane { pane_id, name } => if m.panes@.contains_key(pane_id) {
            Ok(
                ApiRequestView {
                    method: ApiMethod::PaneRename,
                    params: seq![
                        text_param("pane_id"@, m.panes@[pane_id].pane_id@),
                        text_param("label"@, name@),
                    ],
                },
            )
        } else {
            Err(FlowFailure::HerdrOperation)
        },
        ControlCommand::ClosePane { pane_id } => if !m.panes@.contains_key(pane_id) {
            Err(FlowFailure::HerdrOperation)
        } else if m.linked_worktree_parents@.contains(m.panes@[pane_id].workspace) {
            Err(FlowFailure::HerdrWorkspaceGroup)
        } else {
            Ok(
                ApiRequestView {
                    method: ApiMethod::PaneClose,
                    params: seq![text_param("pane_id"@, m.panes@[pane_id].pane_id@)],
                },
            )
        },
        _ => Err(FlowFailure::HerdrOperation),
    }
}

pub open spec fn told_request(r: Result<ApiRequest, FlowFailure>) -> Result<
    ApiRequestView,
    FlowFailure,
> {
    match r {
        Ok(request) => Ok(request@),
        Err(e) => Err(e),
    }
}

fn known_text(m: &HashMap<u64, String>, key: u64) -> (r: Result<String, FlowFailure>)
    ensures
        match r {
            Ok(text) => m@.contains_key(key) && text@ == m@[key]@,
            Err(e) => !m@.contains_key(key) && e == FlowFailure::HerdrOperation,
        },
{
    match m.get(&key) {
        Some(text) => Ok(text.clone()),
        None => Err(FlowFailure::HerdrOperation),
    }
}

fn labelled(
    method: ApiMethod,
    key: &'static str,
    id: Result<String, FlowFailure>,
    name: &String,
) -> (r: Result<ApiRequest, FlowFailure>)
    ensures
        match id {
            Ok(id) => told_request(r) == Ok::<ApiRequestView, FlowFailure>(
                ApiRequestView {
                    method,
                    params: seq![text_param(key@, id@), text_param("label"@, name@)],
                },
            ),
            Err(e) => r == Err::<ApiRequest, FlowFailure>(e),
        },
{
    match id {
        Ok(id) => {
            let params = with_text(
                with_text(no_params(), key, id),
                "label",
                name.clone(),
            );
            assert(param_views(params@) =~= seq![
                text_param(key@, id@),
                text_param("label"@, name@),
            ]);
            Ok(ApiRequest { method, params })
        },
        Err(e) => Err(e),
    }
}

/// Builds the request for a command that changes the runtime.  Where closing a
/// pane or a tab could close a whole worktree group, it is refused.
pub fn api_request(command: &ControlCommand, state: &SessionState) -> (r: Result<
    ApiRequest,
    FlowFailure,
>)
    ensures
        match *command {
            ControlCommand::CreatePane { window_id } => match r {
                Ok(request) => exists|id: Seq<char>| #[trigger]
                    splits_from(*state, window_id, id) && request@ == (ApiRequestView {
                        method: ApiMethod::PaneSplit,
                        params: seq![
                            text_param("target_pane_id"@, id),
                            text_param("direction"@, "right"@),
                            flag_param("focus"@, false),
                        ],
                    }),
                Err(e) => e == FlowFailure::HerdrOperation && splits_nothing(*state, window_id),
            },
            _ => told_request(r) == request_for(*command, state.herdr),
        },
{
    let m = &state.herdr;
    match command {
        ControlCommand::CreateWorkspace { name } => {
            let params = with_flag(
                with_text(no_params(), "label", name.clone()),
                "focus",
                false,
            );
            assert(param_views(params@) =~= seq![
                text_param("label"@, name@),
                flag_param("focus"@, false),
            ]);
            Ok(ApiRequest { method: ApiMethod::WorkspaceCreate, params })
        },
        ControlCommand::RenameWorkspace { window_id, name } => labelled(
            ApiMethod::WorkspaceRename,
            "workspace_id",
            known_text(&m.workspaces, *window_id),
            name,
        ),
        ControlCommand::CloseWorkspace { window_id } => match known_text(
            &m.workspaces,
            *window_id,
        ) {
            Ok(id) => {
                let params = with_flag(
                    with_text(no_params(), "workspace_id", id),
                    "close_group",
                    false,
                );
                assert(param_views(params@) =~= seq![
                    text_param("workspace_id"@, id@),
                    flag_param("close_group"@, false),
                ]);
                Ok(ApiRequest { method: ApiMethod::WorkspaceClose, params })
            },
            Err(e) => Err(e),
        },
        ControlCommand::CreateGroup { window_id, name } => match known_text(
            &m.workspaces,
            *window_id,
        ) {
            Ok(id) => {
                let params = with_flag(
                    with_text(with_text(no_params(), "workspace_id", id), "label", name.clone()),
                    "focus",
                    false,
                );
                assert(param_views(params@) =~= seq![
                    text_param("workspace_id"@, id@),
                    text_param("label"@, name@),
                    flag_param("focus"@, false),
                ]);
                Ok(ApiRequest { method: ApiMethod::TabCreate, params })
            },
            Err(e) => Err(e),
        },
        ControlCommand::RenameGroup { group_id, name } => labelled(
            ApiMethod::TabRename,
            "tab_id",
            known_text(&m.groups, *group_id),
            name,
        ),
        ControlCommand::CloseGroup { group_id } => match find_group_workspace(
            &m.snapshot.groups,
            *group_id,
        ) {
            None => Err(FlowFailure::HerdrOperation),
            Some(workspace) => {
                if m.linked_worktree_parents.contains(&workspace) {
                    return Err(FlowFailure::HerdrWorkspaceGroup);
                }
                match known_text(&m.groups, *group_id) {
                    Ok(id) => {
                        let params = with_text(no_params(), "tab_id", id);
                        assert(param_views(params@) =~= seq![text_param("tab_id"@, id@)]);
                        Ok(ApiRequest { method: ApiMethod::TabClose, params })
                    },
                    Err(e) => Err(e),
                }
            },
        },
        ControlCommand::CreatePane { window_id } => match split_source(state, *window_id) {
            None => Err(FlowFailure::HerdrOperation),
            Some(id) => {
                let params = with_flag(
                    with_text(
                        with_text(no_params(), "target_pane_id", id),
                        "direction",
                        String::from_str("right"),
                    ),
                    "focus",
                    false,
                );
                assert(param_views(params@) =~= seq![
                    text_param("target_pane_id"@, id@),
                    text_param("direction"@, "right"@),
                    flag_param("focus"@, false),
                ]);
                assert(splits_from(*state, *window_id, id@));
                Ok(ApiRequest { method: ApiMethod::PaneSplit, params })
            },
        },
        ControlCommand::RenamePane { pane_id, name } => match m.panes.get(pane_id) {
            Some(remote) => labelled(
                ApiMethod::PaneRename,
                "pane_id",
                Ok(remote.pane_id.clone()),
                name,
            ),
            None => Err(FlowFailure::HerdrOperation),
        },
        ControlCommand::ClosePane { pane_id } => match m.panes.get(pane_id) {
            None => Err(FlowFailure::HerdrOperation),
            Some(remote) => {
                if m.linked_worktree_parents.contains(&remote.workspace) {
                    return Err(FlowFailure::HerdrWorkspaceGroup);
                }
                let params = with_text(no_params(), "pane_id", remote.pane_id.clone());
                assert(param_views(params@) =~= seq![
                    text_param("pane_id"@, remote.pane_id@),
                ]);
                Ok(ApiRequest { method: ApiMethod::PaneClose, params })
            },
        },
        _ => Err(FlowFailure::HerdrOperation),
    }
}

/// The failure that an error code of the API stands for.
pub open spec fn failure_for_code(code: Seq<char>) -> FlowFailure {
    if code == "workspace_group_close_required"@ || code == "confirmation_required"@ {
        FlowFailure::HerdrWorkspaceGroup
    } else if code == "unsupported_method"@ || code == "method_not_found"@ || code
        == "unsupported_in_app_mode"@ {
        FlowFailure::HerdrUnsupported
    } else {
        FlowFailure::HerdrOperation
    }
}

pub fn api_failure(code: &str) -> (r: FlowFailure)
    ensures
        r == failure_for_code(code@),
{
    if same_text(code, "workspace_group_close_required") || same_text(
        code,
        "confirmation_required",
    ) {
        FlowFailure::HerdrWorkspaceGroup
    } else if same_text(code, "unsupported_method") || same_text(code, "method_not_found")
        || same_text(code, "unsupported_in_app_mode") {
        FlowFailure::HerdrUnsupported
    } else {
        FlowFailure::HerdrOperation
    }
}

/// The number after the last request's; without one, no request can be made.
pub fn next_request(last: u64) -> (r: Result<u64, FlowFailure>)
    ensures
        r == (if last == u64::MAX {
            Err::<u64, FlowFailure>(FlowFailure::HerdrProtocol)
        } else {
            Ok((last + 1) as u64)
        }),
{
    if last == u64::MAX {
        Err(FlowFailure::HerdrProtocol)
    } else {
        Ok(last + 1)
    }
}

/// The id of a request.
pub fn request_id(number: u64) -> (r: String)
    ensures
        r@ == "meeterm-"@ + text::decimal(number as nat),
{
    let mut id = String::from_str("meeterm-");
    push_decimal(&mut id, number);
    id
}

/// The most bytes of one JSON record.
pub const MAX_JSON_BYTES: usize = 4194304;

/// The most records that may wait to be read.
pub const MAX_QUEUED_RECORDS: usize = 256;

/// Frames a serialized record: one line, if it is not too long.
pub fn frame_record(record: Vec<u8>) -> (r: Result<Vec<u8>, FlowFailure>)
    ensures
        match r {
            Ok(line) => record@.len() <= MAX_JSON_BYTES && line@ == record@.push(0x0a),
            Err(e) => record@.len() > MAX_JSON_BYTES && e == FlowFailure::HerdrProtocol,
        },
{
    if record.len() > MAX_JSON_BYTES {
        return Err(FlowFailure::HerdrProtocol);
    }
    let mut line = record;
    line.push(0x0a);
    Ok(line)
}

/// Frames a serialized request to the API: one line, which is not too long with
/// its line feed.
pub fn frame_request(request: Vec<u8>) -> (r: Result<Vec<u8>, FlowFailure>)
    ensures
        match r {
            Ok(line) => request@.len() < MAX_JSON_BYTES && line@ == request@.push(0x0a),
            Err(e) => request@.len() >= MAX_JSON_BYTES && e == FlowFailure::HerdrProtocol,
        },
{
    if request.len() >= MAX_JSON_BYTES {
        return Err(FlowFailure::HerdrProtocol);
    }
    let mut line = request;
    line.push(0x0a);
    Ok(line)
}

/// Whether more records may wait beside those that do.
pub fn queue_records(waiting: usize, more: usize) -> (r: Result<(), FlowFailure>)
    ensures
        r == (if waiting + more > MAX_QUEUED_RECORDS {
            Err::<(), FlowFailure>(FlowFailure::HerdrProtocol)
        } else {
            Ok(())
        }),
{
    if waiting > MAX_QUEUED_RECORDS || more > MAX_QUEUED_RECORDS - waiting {
        Err(FlowFailure::HerdrProtocol)
    } else {
        Ok(())
    }
}

} // verus!
