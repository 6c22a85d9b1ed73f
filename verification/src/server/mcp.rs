use vstd::prelude::*;
use vstd::string::*;

verus! {

/// Where a device's MCP handshake stands: waiting for the answer to
/// `initialize`, or paging through the device's tool list.
#[derive(Debug, Clone, Copy, PartialEq, Eq, Structural)]
pub enum DeviceMcpPhase {
    Initialize,
    GetToolList,
}

/// The request counter after handing out one id: it counts up and wraps from
/// the largest id to the smallest, like an atomic fetch-add.
pub open spec fn bump_request_id(id: i64) -> i64 {
    if id == i64::MAX {
        i64::MIN
    } else {
        (id + 1) as i64
    }
}

/// Bookkeeping of the MCP handshake with one device: which request is
/// outstanding, the pagination cursor, and the tools collected so far. The
/// wire messages themselves are built and parsed by the caller; request ids
/// are numeric, so a response whose id is not a number never matches.
pub struct DeviceMcpClient<T> {
    session_id: Option<String>,
    current_request_id: Option<i64>,
    request_id: i64,
    next_cursor: Option<String>,
    pub tools: Vec<T>,
    pub phase: DeviceMcpPhase,
}

impl<T> DeviceMcpClient<T> {
    /// The id of the request awaiting its response, if any.
    pub closed spec fn current_of(&self) -> Option<i64> {
        self.current_request_id
    }

    /// The session the handshake belongs to.
    pub closed spec fn session_of(&self) -> Option<String> {
        self.session_id
    }

    /// The tools collected so far.
    pub closed spec fn tools_of(&self) -> Seq<T> {
        self.tools@
    }

    /// The handshake phase.
    pub closed spec fn phase_of(&self) -> DeviceMcpPhase {
        self.phase
    }

    /// The next request id to hand out.
    pub closed spec fn counter_of(&self) -> i64 {
        self.request_id
    }

    /// The pagination cursor of the tool list.
    pub closed spec fn cursor_of(&self) -> Option<Seq<char>> {
        match self.next_cursor {
            Some(c) => Some(c@),
            None => None,
        }
    }

    /// Whether a response with this (numeric) id answers the outstanding
    /// request.
    pub open spec fn answers_current(&self, response_id: Option<i64>) -> bool {
        response_id is Some && self.current_of() == response_id
    }

    pub fn new(session_id: Option<String>) -> (r: Self)
        ensures
            r.session_of() == session_id,
            r.current_of() is None,
            r.counter_of() == 0,
            r.cursor_of() is None,
            r.tools_of().len() == 0,
            r.phase_of() == DeviceMcpPhase::Initialize,
    {
        Self {
            session_id,
            current_request_id: None,
            request_id: 0,
            next_cursor: None,
            tools: Vec::new(),
            phase: DeviceMcpPhase::Initialize,
        }
    }

    /// The session the handshake belongs to.
    pub fn session_id(&self) -> (r: &Option<String>)
        ensures
            *r == self.session_of(),
    {
        &self.session_id
    }

    /// Hand out the next request id and remember it as outstanding.
    fn take_request_id(&mut self) -> (r: i64)
        ensures
            r == old(self).counter_of(),
            final(self).counter_of() == bump_request_id(old(self).counter_of()),
            final(self).current_of() == Some(r),
            final(self).cursor_of() == old(self).cursor_of(),
            final(self).tools_of() == old(self).tools_of(),
            final(self).phase_of() == old(self).phase_of(),
    {
        let id = self.request_id;
        self.request_id = self.request_id.wrapping_add(1);
        self.current_request_id = Some(id);
        id
    }

    /// Start the `initialize` request: returns its id.
    pub fn create_initialize_request(&mut self) -> (r: i64)
        ensures
            r == old(self).counter_of(),
            final(self).counter_of() == bump_request_id(old(self).counter_of()),
            final(self).current_of() == Some(r),
            final(self).cursor_of() == old(self).cursor_of(),
            final(self).tools_of() == old(self).tools_of(),
            final(self).phase_of() == old(self).phase_of(),
    {
        self.take_request_id()
    }

    /// Start a `tools/list` request: returns its id and the cursor of the page
    /// to ask for.
    pub fn create_tools_list_request(&mut self) -> (r: (i64, Option<String>))
        ensures
            r.0 == old(self).counter_of(),
            match r.1 {
                Some(c) => old(self).cursor_of() == Some(c@),
                None => old(self).cursor_of() is None,
            },
            final(self).counter_of() == bump_request_id(old(self).counter_of()),
            final(self).current_of() == Some(r.0),
            final(self).cursor_of() == old(self).cursor_of(),
            final(self).tools_of() == old(self).tools_of(),
            final(self).phase_of() == old(self).phase_of(),
    {
        let id = self.take_request_id();
        let cursor = match &self.next_cursor {
            Some(c) => Some(c.clone()),
            None => None,
        };
        (id, cursor)
    }

    /// Whether a response answers the outstanding request.
    pub fn is_current(&self, response_id: Option<i64>) -> (r: bool)
        ensures
            r == self.answers_current(response_id),
    {
        match (self.current_request_id, response_id) {
            (Some(current), Some(id)) => current == id,
            _ => false,
        }
    }

    /// The answer to `initialize` moves the handshake on to the tool list;
    /// a stray response changes nothing.
    pub fn handle_initialize_result(&mut self, response_id: Option<i64>)
        ensures
            final(self).phase_of() == (if old(self).answers_current(response_id) {
                DeviceMcpPhase::GetToolList
            } else {
                old(self).phase_of()
            }),
            final(self).current_of() == old(self).current_of(),
            final(self).counter_of() == old(self).counter_of(),
            final(self).cursor_of() == old(self).cursor_of(),
            final(self).tools_of() == old(self).tools_of(),
    {
        if self.is_current(response_id) {
            self.phase = DeviceMcpPhase::GetToolList;
        }
    }

    /// A page of the tool list: its tools are collected and its cursor kept;
    /// returns whether another page follows. A stray response changes nothing
    /// and ends the paging.
    pub fn handle_tools_list_result(
        &mut self,
        response_id: Option<i64>,
        page: Vec<T>,
        next_cursor: Option<String>,
    ) -> (r: bool)
        ensures
            old(self).answers_current(response_id) ==> {
                &&& final(self).tools_of() == old(self).tools_of() + page@
                &&& final(self).cursor_of() == match next_cursor {
                    Some(c) => Some(c@),
                    None => None,
                }
                &&& r == next_cursor is Some
            },
            !old(self).answers_current(response_id) ==> {
                &&& final(self).tools_of() == old(self).tools_of()
                &&& final(self).cursor_of() == old(self).cursor_of()
                &&& !r
            },
            final(self).phase_of() == old(self).phase_of(),
            final(self).current_of() == old(self).current_of(),
            final(self).counter_of() == old(self).counter_of(),
    {
        if self.is_current(response_id) {
            let mut page = page;
            self.tools.append(&mut page);
            let more = next_cursor.is_some();
            self.next_cursor = next_cursor;
            more
        } else {
            false
        }
    }

    /// One MCP message from the device, dispatched on the phase: the answer to
    /// `initialize` is always followed by a tool-list request; a tool-list page
    /// asks for the next page while the device reports more. Returns whether a
    /// `tools/list` request must go out next.
    pub fn handle_mcp(&mut self, response_id: Option<i64>, page: Option<(Vec<T>, Option<String>)>) -> (r:
        bool)
        requires
            old(self).phase_of() == DeviceMcpPhase::GetToolList && old(self).answers_current(response_id)
                ==> page is Some,
        ensures
            old(self).phase_of() == DeviceMcpPhase::Initialize ==> {
                &&& r
                &&& final(self).phase_of() == (if old(self).answers_current(response_id) {
                    DeviceMcpPhase::GetToolList
                } else {
                    DeviceMcpPhase::Initialize
                })
                &&& final(self).tools_of() == old(self).tools_of()
            },
            old(self).phase_of() == DeviceMcpPhase::GetToolList ==> {
                &&& final(self).phase_of() == DeviceMcpPhase::GetToolList
                &&& (old(self).answers_current(response_id) ==> match page {
                    Some((tools, cursor)) => final(self).tools_of() == old(self).tools_of() + tools@ && r
                        == cursor is Some,
                    None => false,
                })
                &&& (!old(self).answers_current(response_id) ==> !r && final(self).tools_of() == old(
                    self,
                ).tools_of())
            },
            final(self).current_of() == old(self).current_of(),
            final(self).counter_of() == old(self).counter_of(),
    {
        match self.phase {
            DeviceMcpPhase::Initialize => {
                self.handle_initialize_result(response_id);
                true
            },
            DeviceMcpPhase::GetToolList => {
                if self.is_current(response_id) {
                    match page {
                        Some((tools, cursor)) => self.handle_tools_list_result(
                            response_id,
                            tools,
                            cursor,
                        ),
                        None => false,
                    }
                } else {
                    false
                }
            },
        }
    }
}

/// Which client serves a tool call.
#[derive(Debug, Clone, Copy, PartialEq, Eq, Structural)]
pub enum ToolRoute {
    /// The server client at this position in the host's list.
    Server(usize),
    /// The device's own client.
    Device,
    /// No client offers the tool.
    Missing,
}

/// Whether `tools` names `name`.
pub open spec fn lists_tool(tools: Seq<String>, name: Seq<char>) -> bool {
    exists|j: int| 0 <= j < tools.len() && (#[trigger] tools[j])@ == name
}

/// The last of the first `k` server clients that offers `name`, if any: when
/// several offer it, the one added last wins.
pub open spec fn last_server_with(servers: Seq<Vec<String>>, name: Seq<char>, k: int) -> Option<int>
    decreases k,
{
    if k <= 0 {
        None
    } else if lists_tool(servers[k - 1]@, name) {
        Some(k - 1)
    } else {
        last_server_with(servers, name, k - 1)
    }
}

/// The route of a call to `name`: a server client offering it first, else
/// the device when it offers it, else nowhere.
pub open spec fn tool_route(
    servers: Seq<Vec<String>>,
    device: Option<Seq<String>>,
    name: Seq<char>,
) -> ToolRoute {
    match last_server_with(servers, name, servers.len() as int) {
        Some(i) => ToolRoute::Server(i as usize),
        None => match device {
            Some(tools) => if lists_tool(tools, name) {
                ToolRoute::Device
            } else {
                ToolRoute::Missing
            },
            None => ToolRoute::Missing,
        },
    }
}

fn offers(tools: &Vec<String>, name: &String) -> (r: bool)
    ensures
        r == lists_tool(tools@, name@),
{
    let mut j: usize = 0;
    while j < tools.len()
        invariant
            0 <= j <= tools@.len(),
            forall|k: int| 0 <= k < j ==> (#[trigger] tools@[k])@ != name@,
        decreases tools@.len() - j,
    {
        if tools[j] == *name {
            return true;
        }
        j = j + 1;
    }
    false
}

/// Route a tool call given the tool names each server client offers, in
/// the order the clients were added, and those of the device's client, if
/// the session has one.
pub fn route_tool(
    name: &String,
    server_tools: &Vec<Vec<String>>,
    device_tools: Option<&Vec<String>>,
) -> (r: ToolRoute)
    ensures
        r == tool_route(
            server_tools@,
            match device_tools {
                Some(t) => Some(t@),
                None => None,
            },
            name@,
        ),
{
    let mut k: usize = server_tools.len();
    while k > 0
        invariant
            k <= server_tools@.len(),
            last_server_with(server_tools@, name@, server_tools@.len() as int)
                == last_server_with(server_tools@, name@, k as int),
        decreases k,
    {
        if offers(&server_tools[k - 1], name) {
            return ToolRoute::Server(k - 1);
        }
        k = k - 1;
    }
    match device_tools {
        Some(tools) => {
            if offers(tools, name) {
                ToolRoute::Device
            } else {
                ToolRoute::Missing
            }
        },
        None => ToolRoute::Missing,
    }
}

/// The error text for a call to a tool no client offers.
pub open spec fn missing_tool_text(name: Seq<char>) -> Seq<char> {
    "can't find function name = "@ + name
}

/// The error text for a call to a tool no client offers.
pub fn missing_tool_message(name: &String) -> (r: String)
    ensures
        r@ == missing_tool_text(name@),
{
    String::from_str("can't find function name = ").concat(name.as_str())
}

/// All the tools a session offers the model: the device's first, then each
/// server client's in the order they were added.
pub fn gather_tools<T>(device: Option<Vec<T>>, servers: Vec<Vec<T>>) -> (r: Vec<T>)
    ensures
        r@ == (match device {
            Some(d) => d@,
            None => Seq::<T>::empty(),
        }) + servers@.map_values(|v: Vec<T>| v@).flatten(),
{
    let mut tools: Vec<T> = match device {
        Some(d) => d,
        None => Vec::new(),
    };
    let ghost start = tools@;
    let mut servers = servers;
    let ghost all = servers@;
    let count = servers.len();
    assert(all.len() == count);
    proof {
        assert(all.map_values(|v: Vec<T>| v@).take(0).flatten() =~= Seq::<T>::empty());
    }
    let mut i: usize = 0;
    while servers.len() > 0
        invariant
            0 <= i <= all.len(),
            all.len() <= usize::MAX,
            servers@ == all.skip(i as int),
            tools@ == start + all.map_values(|v: Vec<T>| v@).take(i as int).flatten(),
        decreases servers@.len(),
    {
        let mut next = servers.remove(0);
        let ghost added = next@;
        tools.append(&mut next);
        proof {
            let views = all.map_values(|v: Vec<T>| v@);
            assert(views.take(i + 1) =~= views.take(i as int).push(added));
            views.take(i as int).lemma_flatten_push(added);
            assert(servers@ =~= all.skip(i + 1));
        }
        i = i + 1;
    }
    proof {
        assert(all.map_values(|v: Vec<T>| v@).take(i as int) =~= all.map_values(|v: Vec<T>| v@));
    }
    tools
}

/// A piece of content a server tool call returns, by kind; only text is
/// passed back to the model.
pub enum ToolContent {
    Text(String),
    Image,
    Resource,
    Audio,
    ResourceLink,
}

/// What a server tool call comes to: the text of its first piece of
/// content, or why it cannot be used.
pub open spec fn tool_call_outcome(contents: Seq<ToolContent>) -> Result<Seq<char>, Seq<char>> {
    if contents.len() == 0 {
        Err("call tool result must be not empty"@)
    } else {
        match contents[0] {
            ToolContent::Text(t) => Ok(t@),
            ToolContent::Image => Err("tool call image result not supported yet"@),
            ToolContent::Resource => Err("tool call resource result not supported yet"@),
            ToolContent::Audio => Err("tool call audio result not supported yet"@),
            ToolContent::ResourceLink => Err("tool call resource link result not supported yet"@),
        }
    }
}

/// The result a server tool call hands back to the model: the text of its
/// first piece of content; an empty result or a first piece that is not
/// text is an error with its message.
pub fn tool_call_result(contents: &Vec<ToolContent>) -> (r: Result<String, String>)
    ensures
        match r {
            Ok(t) => tool_call_outcome(contents@) == Ok::<Seq<char>, Seq<char>>(t@),
            Err(e) => tool_call_outcome(contents@) == Err::<Seq<char>, Seq<char>>(e@),
        },
{
    if contents.len() == 0 {
        return Err(String::from_str("call tool result must be not empty"));
    }
    match &contents[0] {
        ToolContent::Text(t) => Ok(t.clone()),
        ToolContent::Image => Err(String::from_str("tool call image result not supported yet")),
        ToolContent::Resource => Err(String::from_str("tool call resource result not supported yet")),
        ToolContent::Audio => Err(String::from_str("tool call audio result not supported yet")),
        ToolContent::ResourceLink => Err(
            String::from_str("tool call resource link result not supported yet"),
        ),
    }
}

} // verus!
