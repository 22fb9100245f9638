//! The established TCP connections and the processes that own them.

use vstd::prelude::*;

verus! {

/// The addresses and state of a TCP socket.
#[derive(Debug)]
pub struct TcpSocket {
    pub local_address: String,
    pub local_port: u16,
    pub remote_address: String,
    pub remote_port: u16,
    /// Whether the connection is in the established state.
    pub established: bool,
}

/// What the socket table reports of one socket.
#[derive(Debug)]
pub enum SocketProtocol {
    Tcp(TcpSocket),
    Udp,
}

/// One socket: its protocol data and the ids of the processes that hold it.
#[derive(Debug)]
pub struct SocketEntry {
    pub protocol: SocketProtocol,
    pub associated_pids: Vec<u32>,
}

/// One running process: its id and name.
#[derive(Debug)]
pub struct ProcessEntry {
    pub pid: u32,
    pub name: String,
}

/// An established connection with the process that owns it.
#[derive(Debug)]
pub struct Connection {
    pub pid: u32,
    pub process_name: String,
    pub local_address: String,
    pub local_port: u16,
    pub remote_address: String,
    pub remote_port: u16,
}

/// The name of the first process in `table` with id `pid`.
pub open spec fn process_name_of(table: Seq<ProcessEntry>, pid: u32) -> Option<String>
    decreases table.len(),
{
    if table.len() == 0 {
        None
    } else if table[0].pid == pid {
        Some(table[0].name)
    } else {
        process_name_of(table.drop_first(), pid)
    }
}

/// The connection that `socket` contributes: one when it is an established
/// TCP socket whose first associated process is in `table`.
pub open spec fn connection_of(socket: SocketEntry, table: Seq<ProcessEntry>) -> Option<
    Connection,
> {
    match socket.protocol {
        SocketProtocol::Tcp(t) => if t.established && socket.associated_pids@.len() > 0 {
            let pid = socket.associated_pids@[0];
            match process_name_of(table, pid) {
                Some(name) => Some(
                    Connection {
                        pid: pid,
                        process_name: name,
                        local_address: t.local_address,
                        local_port: t.local_port,
                        remote_address: t.remote_address,
                        remote_port: t.remote_port,
                    },
                ),
                None => None,
            }
        } else {
            None
        },
        SocketProtocol::Udp => None,
    }
}

/// The connections that `sockets` contribute, in order.
pub open spec fn connections_of(sockets: Seq<SocketEntry>, table: Seq<ProcessEntry>) -> Seq<
    Connection,
>
    decreases sockets.len(),
{
    if sockets.len() == 0 {
        Seq::empty()
    } else {
        let earlier = connections_of(sockets.drop_last(), table);
        match connection_of(sockets.last(), table) {
            Some(c) => earlier.push(c),
            None => earlier,
        }
    }
}

/// Every reported connection names a process that the process table lists
/// under the connection's process id, and there is at most one connection
/// per socket.
pub proof fn lemma_connections_name_listed_processes(
    sockets: Seq<SocketEntry>,
    table: Seq<ProcessEntry>,
)
    ensures
        connections_of(sockets, table).len() <= sockets.len(),
        forall|k: int|
            0 <= k < connections_of(sockets, table).len() ==> process_name_of(
                table,
                #[trigger] connections_of(sockets, table)[k].pid,
            ) == Some(connections_of(sockets, table)[k].process_name),
    decreases sockets.len(),
{
    if sockets.len() > 0 {
        lemma_connections_name_listed_processes(sockets.drop_last(), table);
    }
}

/// The process lookup is complete and takes the first match: it finds a
/// name exactly when some entry of the table has the id, and then it is the
/// name of the first entry with that id.
pub proof fn lemma_process_lookup_first_match(table: Seq<ProcessEntry>, pid: u32)
    ensures
        process_name_of(table, pid).is_some() <==> exists|i: int|
            0 <= i < table.len() && #[trigger] table[i].pid == pid,
        forall|i: int|
            0 <= i < table.len() && #[trigger] table[i].pid == pid && (forall|j: int|
                0 <= j < i ==> table[j].pid != pid) ==> process_name_of(table, pid) == Some(
                table[i].name,
            ),
{
    lemma_lookup_found_iff_listed(table, pid);
    assert forall|i: int|
        0 <= i < table.len() && #[trigger] table[i].pid == pid && (forall|j: int|
            0 <= j < i ==> table[j].pid != pid) implies process_name_of(table, pid) == Some(
        table[i].name,
    ) by {
        lemma_lookup_gives_first(table, pid, i);
    }
}

proof fn lemma_lookup_found_iff_listed(table: Seq<ProcessEntry>, pid: u32)
    ensures
        process_name_of(table, pid).is_some() <==> exists|i: int|
            0 <= i < table.len() && #[trigger] table[i].pid == pid,
    decreases table.len(),
{
    if table.len() > 0 {
        let rest = table.drop_first();
        lemma_lookup_found_iff_listed(rest, pid);
        if table[0].pid != pid {
            if exists|i: int| 0 <= i < table.len() && #[trigger] table[i].pid == pid {
                let i = choose|i: int| 0 <= i < table.len() && #[trigger] table[i].pid == pid;
                assert(rest[i - 1].pid == pid);
            }
            if exists|i: int| 0 <= i < rest.len() && #[trigger] rest[i].pid == pid {
                let i = choose|i: int| 0 <= i < rest.len() && #[trigger] rest[i].pid == pid;
                assert(table[i + 1].pid == pid);
            }
        } else {
            assert(table[0].pid == pid);
        }
    }
}

proof fn lemma_lookup_gives_first(table: Seq<ProcessEntry>, pid: u32, i: int)
    requires
        0 <= i < table.len(),
        table[i].pid == pid,
        forall|j: int| 0 <= j < i ==> table[j].pid != pid,
    ensures
        process_name_of(table, pid) == Some(table[i].name),
    decreases i,
{
    if i > 0 {
        assert(table[0].pid != pid);
        let rest = table.drop_first();
        assert(rest[i - 1] == table[i]);
        assert forall|j: int| 0 <= j < i - 1 implies rest[j].pid != pid by {
            assert(rest[j] == table[j + 1]);
        }
        lemma_lookup_gives_first(rest, pid, i - 1);
    }
}

/// Whether `socket` is an established TCP socket whose first associated
/// process id is listed in `table`.
pub open spec fn owned_established_tcp(socket: SocketEntry, table: Seq<ProcessEntry>) -> bool {
    &&& socket.protocol is Tcp
    &&& socket.protocol->0.established
    &&& socket.associated_pids@.len() > 0
    &&& exists|i: int| 0 <= i < table.len() && #[trigger] table[i].pid == socket.associated_pids@[0]
}

/// A socket yields a connection exactly when it is an established TCP
/// socket whose first process id is listed; the connection carries that
/// id, the socket's addresses and ports, and the name of the first listed
/// process with that id.
pub proof fn lemma_connection_of_socket(socket: SocketEntry, table: Seq<ProcessEntry>)
    ensures
        connection_of(socket, table).is_some() <==> owned_established_tcp(socket, table),
        connection_of(socket, table).is_some() ==> {
            let c = connection_of(socket, table).unwrap();
            let t = socket.protocol->0;
            &&& c.pid == socket.associated_pids@[0]
            &&& c.local_address == t.local_address
            &&& c.local_port == t.local_port
            &&& c.remote_address == t.remote_address
            &&& c.remote_port == t.remote_port
            &&& exists|i: int|
                0 <= i < table.len() && #[trigger] table[i].pid == c.pid && table[i].name
                    == c.process_name && (forall|j: int| 0 <= j < i ==> table[j].pid != c.pid)
        },
{
    if socket.associated_pids@.len() > 0 {
        let pid = socket.associated_pids@[0];
        lemma_process_lookup_first_match(table, pid);
        if exists|i: int| 0 <= i < table.len() && #[trigger] table[i].pid == pid {
            lemma_first_index_with_pid(table, pid);
        }
    }
}

/// Some entry with `pid` is the first one.
proof fn lemma_first_index_with_pid(table: Seq<ProcessEntry>, pid: u32)
    requires
        exists|i: int| 0 <= i < table.len() && #[trigger] table[i].pid == pid,
    ensures
        exists|i: int|
            0 <= i < table.len() && #[trigger] table[i].pid == pid && (forall|j: int|
                0 <= j < i ==> table[j].pid != pid),
    decreases table.len(),
{
    if table[0].pid != pid {
        let rest = table.drop_first();
        let k = choose|i: int| 0 <= i < table.len() && #[trigger] table[i].pid == pid;
        assert(rest[k - 1].pid == pid);
        lemma_first_index_with_pid(rest, pid);
        let i = choose|i: int|
            0 <= i < rest.len() && #[trigger] rest[i].pid == pid && (forall|j: int|
                0 <= j < i ==> rest[j].pid != pid);
        assert(table[i + 1].pid == pid);
        assert forall|j: int| 0 <= j < i + 1 implies table[j].pid != pid by {
            if j > 0 {
                assert(table[j] == rest[j - 1]);
            }
        }
    } else {
        assert(table[0].pid == pid);
    }
}

/// The connections of two lists of sockets placed one after the other are
/// those of the first list followed by those of the second: every socket
/// contributes its own connection, whatever the others contribute.
pub proof fn lemma_connections_concat(
    a: Seq<SocketEntry>,
    b: Seq<SocketEntry>,
    table: Seq<ProcessEntry>,
)
    ensures
        connections_of(a + b, table) == connections_of(a, table) + connections_of(b, table),
    decreases b.len(),
{
    if b.len() == 0 {
        assert(a + b =~= a);
        assert(connections_of(a, table) + connections_of(b, table) =~= connections_of(a, table));
    } else {
        lemma_connections_concat(a, b.drop_last(), table);
        assert((a + b).drop_last() =~= a + b.drop_last());
        assert((a + b).last() == b.last());
        match connection_of(b.last(), table) {
            Some(c) => {
                assert(connections_of(a, table) + connections_of(b.drop_last(), table).push(c) =~= (
                connections_of(a, table) + connections_of(b.drop_last(), table)).push(c));
            },
            None => {},
        }
    }
}

/// One more socket adds exactly its own connection, if it has one, even
/// when an earlier socket belongs to the same process.
pub proof fn lemma_connections_one_per_socket(
    s: Seq<SocketEntry>,
    x: SocketEntry,
    table: Seq<ProcessEntry>,
)
    ensures
        connection_of(x, table) matches Some(c) ==> connections_of(s.push(x), table)
            == connections_of(s, table).push(c),
        connection_of(x, table) is None ==> connections_of(s.push(x), table) == connections_of(
            s,
            table,
        ),
        connections_of(Seq::<SocketEntry>::empty(), table) == Seq::<Connection>::empty(),
{
    assert(s.push(x).drop_last() =~= s);
    assert(s.push(x).last() == x);
}

/// Looks up the name of the first process in `table` with id `pid`.
pub fn find_process_name(table: &Vec<ProcessEntry>, pid: u32) -> (r: Option<String>)
    ensures
        r == process_name_of(table@, pid),
{
    let mut i: usize = 0;
    assert(table@.skip(0) =~= table@);
    while i < table.len()
        invariant
            i <= table.len(),
            process_name_of(table@, pid) == process_name_of(table@.skip(i as int), pid),
        decreases table.len() - i,
    {
        assert(table@.skip(i as int).drop_first() =~= table@.skip(i + 1));
        if table[i].pid == pid {
            return Some(table[i].name.clone());
        }
        i = i + 1;
    }
    None
}

/// The established TCP connections among `sockets`, each with the name of
/// the process that holds it: a socket counts when it is TCP, established,
/// and its first associated process id names a process in `processes`.
pub fn get_open_connections(sockets: &Vec<SocketEntry>, processes: &Vec<ProcessEntry>) -> (r: Vec<
    Connection,
>)
    ensures
        r@ == connections_of(sockets@, processes@),
{
    let mut out: Vec<Connection> = Vec::new();
    let n = sockets.len();
    for i in 0..n
        invariant
            n == sockets@.len(),
            out@ == connections_of(sockets@.take(i as int), processes@),
    {
        assert(sockets@.take(i + 1).drop_last() =~= sockets@.take(i as int));
        let socket = &sockets[i];
        match &socket.protocol {
            SocketProtocol::Tcp(t) => {
                if t.established && socket.associated_pids.len() > 0 {
                    let pid = socket.associated_pids[0];
                    match find_process_name(processes, pid) {
                        Some(name) => {
                            out.push(
                                Connection {
                                    pid: pid,
                                    process_name: name,
                                    local_address: t.local_address.clone(),
                                    local_port: t.local_port,
                                    remote_address: t.remote_address.clone(),
                                    remote_port: t.remote_port,
                                },
                            );
                        },
                        None => {},
                    }
                }
            },
            SocketProtocol::Udp => {},
        }
    }
    assert(sockets@.take(n as int) =~= sockets@);
    out
}

} // verus!
