use system_monitor::connections::{
    find_process_name, get_open_connections, ProcessEntry, SocketEntry, SocketProtocol, TcpSocket,
};
use system_monitor::disks::get_disk_metrics;
use system_monitor::network::traffic_deltas;
use system_monitor::ranking::{get_top_processes, top_ranked, TOP_PROCESS_COUNT};

/// The reference result: a stable sort of the indices by descending key,
/// cut at `k`.
fn stable_top(keys: &[u64], k: usize) -> Vec<usize> {
    let mut idx: Vec<usize> = (0..keys.len()).collect();
    idx.sort_by(|a, b| keys[*b].cmp(&keys[*a]));
    idx.truncate(k);
    idx
}

#[test]
fn top_processes_by_usage_with_ties() {
    let keys = vec![5, 9, 9, 1, 7, 9, 0, 7];
    assert_eq!(get_top_processes(&keys), vec![1, 2, 5, 4, 7]);
    assert_eq!(TOP_PROCESS_COUNT, 5);
}

#[test]
fn top_processes_with_few_processes() {
    assert_eq!(get_top_processes(&vec![3, 8]), vec![1, 0]);
    assert!(get_top_processes(&vec![]).is_empty());
}

#[test]
fn top_ranked_matches_stable_sort() {
    let mut seed: u64 = 12345;
    for round in 0..200 {
        let n = round % 13;
        let mut keys = Vec::new();
        for _ in 0..n {
            seed = seed.wrapping_mul(6364136223846793005).wrapping_add(1442695040888963407);
            keys.push((seed >> 61) as u64);
        }
        for k in 0..15 {
            assert_eq!(top_ranked(&keys, k), stable_top(&keys, k), "keys {:?} k {}", keys, k);
        }
    }
}

#[test]
fn top_ranked_shorter_request_is_prefix() {
    let keys = vec![4, 4, 2, 9, 4, 0];
    let three = top_ranked(&keys, 3);
    let all = top_ranked(&keys, 10);
    assert_eq!(all, vec![3, 0, 1, 4, 2, 5]);
    assert_eq!(&all[..3], &three[..]);
}

fn tcp(local: &str, lport: u16, remote: &str, rport: u16, established: bool) -> SocketProtocol {
    SocketProtocol::Tcp(TcpSocket {
        local_address: local.to_string(),
        local_port: lport,
        remote_address: remote.to_string(),
        remote_port: rport,
        established,
    })
}

fn processes() -> Vec<ProcessEntry> {
    vec![
        ProcessEntry { pid: 10, name: "firefox".to_string() },
        ProcessEntry { pid: 20, name: "sshd".to_string() },
        ProcessEntry { pid: 10, name: "shadow".to_string() },
    ]
}

#[test]
fn process_lookup_takes_first_match() {
    let table = processes();
    assert_eq!(find_process_name(&table, 10), Some("firefox".to_string()));
    assert_eq!(find_process_name(&table, 20), Some("sshd".to_string()));
    assert_eq!(find_process_name(&table, 30), None);
}

#[test]
fn open_connections_keep_established_tcp_with_known_process() {
    let sockets = vec![
        SocketEntry { protocol: tcp("10.0.0.2", 5000, "1.1.1.1", 443, true), associated_pids: vec![10, 20] },
        SocketEntry { protocol: tcp("10.0.0.2", 5001, "1.1.1.1", 443, false), associated_pids: vec![10] },
        SocketEntry { protocol: SocketProtocol::Udp, associated_pids: vec![10] },
        SocketEntry { protocol: tcp("10.0.0.2", 22, "10.0.0.9", 6000, true), associated_pids: vec![] },
        SocketEntry { protocol: tcp("10.0.0.2", 22, "10.0.0.9", 6001, true), associated_pids: vec![99, 20] },
        SocketEntry { protocol: tcp("::1", 22, "::1", 6002, true), associated_pids: vec![20] },
    ];
    let conns = get_open_connections(&sockets, &processes());
    assert_eq!(conns.len(), 2);
    assert_eq!(conns[0].pid, 10);
    assert_eq!(conns[0].process_name, "firefox");
    assert_eq!(conns[0].local_address, "10.0.0.2");
    assert_eq!(conns[0].local_port, 5000);
    assert_eq!(conns[0].remote_address, "1.1.1.1");
    assert_eq!(conns[0].remote_port, 443);
    assert_eq!(conns[1].pid, 20);
    assert_eq!(conns[1].process_name, "sshd");
    assert_eq!(conns[1].local_address, "::1");
    assert_eq!(conns[1].remote_port, 6002);
}

#[test]
fn open_connections_name_listed_processes() {
    let sockets = vec![
        SocketEntry { protocol: tcp("a", 1, "b", 2, true), associated_pids: vec![10] },
        SocketEntry { protocol: tcp("c", 3, "d", 4, true), associated_pids: vec![20] },
        SocketEntry { protocol: tcp("e", 5, "f", 6, true), associated_pids: vec![30] },
    ];
    let table = processes();
    let conns = get_open_connections(&sockets, &table);
    assert!(conns.len() <= sockets.len());
    for c in &conns {
        assert_eq!(find_process_name(&table, c.pid), Some(c.process_name.clone()));
    }
    assert_eq!(conns.len(), 2);
}

#[test]
fn open_connections_of_nothing() {
    assert!(get_open_connections(&vec![], &processes()).is_empty());
}

#[test]
fn traffic_deltas_per_interface() {
    let initial = vec![(100, 50), (0, 0), (7, 7)];
    let current = vec![(1124, 50), (3, 9)];
    let d = traffic_deltas(&initial, &current);
    assert_eq!(d, vec![(1024, 0), (3, 9)]);
    for i in 0..d.len() {
        assert_eq!(initial[i].0 + d[i].0, current[i].0);
        assert_eq!(initial[i].1 + d[i].1, current[i].1);
    }
}

#[test]
fn traffic_deltas_of_large_counters() {
    let d = traffic_deltas(&vec![(1, u64::MAX - 5)], &vec![(u64::MAX, u64::MAX)]);
    assert_eq!(d, vec![(u64::MAX - 1, 5)]);
}

#[test]
fn disk_rows_skip_total() {
    let names: Vec<String> = ["0 C:", "_Total", "1 D:", "_total"].iter().map(|s| s.to_string()).collect();
    assert_eq!(get_disk_metrics(&names), vec![0, 2, 3]);
    assert!(get_disk_metrics(&vec!["_Total".to_string()]).is_empty());
}
