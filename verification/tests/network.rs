use discard_server::peer::PeerAddr;
use discard_server::server::{AcceptOutcome, DiscardServer, Line, ReadOutcome, ReaderStep};
use std::collections::{HashMap, VecDeque};

struct Wire {
    inbox: VecDeque<u8>,
    closed: bool,
}

/// An in-memory stand-in for the sockets: a backlog of peers that wait to be
/// accepted, and for each peer the bytes on their way to the server.
struct Net {
    backlog: VecDeque<PeerAddr>,
    wires: HashMap<PeerAddr, Wire>,
    chunk: usize,
}

impl Net {
    fn new(chunk: usize) -> Net {
        Net { backlog: VecDeque::new(), wires: HashMap::new(), chunk }
    }

    fn connect(&mut self, peer: PeerAddr) {
        self.backlog.push_back(peer);
        self.wires.insert(peer, Wire { inbox: VecDeque::new(), closed: false });
    }

    fn send(&mut self, peer: PeerAddr, bytes: &[u8]) {
        self.wires.get_mut(&peer).unwrap().inbox.extend(bytes.iter().copied());
    }

    fn close(&mut self, peer: PeerAddr) {
        self.wires.get_mut(&peer).unwrap().closed = true;
    }

    fn accept(&mut self) -> AcceptOutcome {
        match self.backlog.pop_front() {
            Some(peer) => AcceptOutcome::Accepted(peer),
            None => AcceptOutcome::WouldBlock,
        }
    }

    fn read(&mut self, peer: PeerAddr) -> ReadOutcome {
        let wire = self.wires.get_mut(&peer).unwrap();
        if wire.inbox.is_empty() {
            if wire.closed {
                ReadOutcome::Data(Vec::new())
            } else {
                ReadOutcome::WouldBlock
            }
        } else {
            let n = self.chunk.min(wire.inbox.len());
            ReadOutcome::Data(wire.inbox.drain(..n).collect())
        }
    }
}

fn tick(server: &mut DiscardServer, net: &mut Net, sink: &mut Vec<Line>) {
    server.accept_step(net.accept());
    let step = match server.reader_poll() {
        ReaderStep::Read(peer) => {
            let outcome = net.read(peer);
            server.reader_finish(outcome)
        }
        step => step,
    };
    match step {
        ReaderStep::Dispatched(line) => sink.push(line),
        ReaderStep::Closed(peer) => {
            net.wires.remove(&peer);
        }
        ReaderStep::Fatal(peer) => panic!("read fault on {peer:?}"),
        ReaderStep::Read(peer) => panic!("a second read was asked for {peer:?}"),
        ReaderStep::Idle | ReaderStep::Waiting(_) => {}
    }
}

fn settle(server: &mut DiscardServer, net: &mut Net, sink: &mut Vec<Line>) {
    let mut quiet = 0;
    while quiet < 4 * (net.wires.len() + 2) {
        let before = (sink.len(), server.queue_len(), net.wires.len(), net.backlog.len());
        tick(server, net, sink);
        let after = (sink.len(), server.queue_len(), net.wires.len(), net.backlog.len());
        quiet = if before == after { quiet + 1 } else { 0 };
    }
}

fn client(n: u16) -> PeerAddr {
    PeerAddr::V4(0x7f00_0001, 40_000 + n)
}

#[test]
fn test_discard_server() {
    const N_CLIENTS: u8 = u8::MAX;
    let mut server = DiscardServer::new();
    let mut net = Net::new(4096);
    let mut sink: Vec<Line> = Vec::new();
    for i in 0..N_CLIENTS {
        let peer = client(i as u16);
        net.connect(peer);
        tick(&mut server, &mut net, &mut sink);
        net.send(peer, b"HELO server\n");
        tick(&mut server, &mut net, &mut sink);
        net.send(peer, b"QUIT\n");
        net.close(peer);
        tick(&mut server, &mut net, &mut sink);
    }
    settle(&mut server, &mut net, &mut sink);
    assert_eq!(sink.len(), 510);
    assert_eq!(server.queue_len(), 0);
    assert!(!server.is_reading());
    for i in 0..N_CLIENTS {
        let peer = client(i as u16);
        let texts: Vec<&[u8]> =
            sink.iter().filter(|l| l.peer == peer).map(|l| l.text.as_slice()).collect();
        assert_eq!(texts, vec![&b"HELO server"[..], &b"QUIT"[..]]);
    }
}

#[test]
fn every_client_gives_one_line_under_its_own_address() {
    let n: u16 = 40;
    let mut server = DiscardServer::new();
    let mut net = Net::new(4096);
    let mut sink: Vec<Line> = Vec::new();
    for i in 0..n {
        net.connect(client(i));
    }
    for i in 0..n {
        net.send(client(i), format!("line from {i}\n").as_bytes());
        net.close(client(i));
    }
    settle(&mut server, &mut net, &mut sink);
    assert_eq!(sink.len(), n as usize);
    for i in 0..n {
        let mine: Vec<&Line> = sink.iter().filter(|l| l.peer == client(i)).collect();
        assert_eq!(mine.len(), 1);
        assert_eq!(mine[0].text, format!("line from {i}").into_bytes());
    }
    assert_eq!(server.queue_len(), 0);
}

#[test]
fn partial_line_waits_for_its_newline() {
    let mut server = DiscardServer::new();
    let mut net = Net::new(4096);
    let mut sink: Vec<Line> = Vec::new();
    let peer = client(1);
    net.connect(peer);
    net.send(peer, b"AB");
    for _ in 0..10 {
        tick(&mut server, &mut net, &mut sink);
    }
    assert!(sink.is_empty());
    assert_eq!(server.queue_len(), 1);
    net.send(peer, b"CD\n");
    for _ in 0..10 {
        tick(&mut server, &mut net, &mut sink);
    }
    assert_eq!(sink, vec![Line { peer, text: b"ABCD".to_vec(), wire_len: 5 }]);
}

#[test]
fn partial_line_is_dropped_when_the_peer_closes() {
    let mut server = DiscardServer::new();
    let mut net = Net::new(4096);
    let mut sink: Vec<Line> = Vec::new();
    let peer = client(1);
    net.connect(peer);
    net.send(peer, b"no newline");
    net.close(peer);
    settle(&mut server, &mut net, &mut sink);
    assert!(sink.is_empty());
    assert_eq!(server.queue_len(), 0);
}

#[test]
fn closing_without_a_line_leaves_the_queue_at_its_baseline() {
    let mut server = DiscardServer::new();
    let mut net = Net::new(4096);
    let mut sink: Vec<Line> = Vec::new();
    let stays = client(1);
    net.connect(stays);
    for _ in 0..3 {
        tick(&mut server, &mut net, &mut sink);
    }
    let baseline = server.queue_len();
    assert_eq!(baseline, 1);
    let leaves = client(2);
    net.connect(leaves);
    tick(&mut server, &mut net, &mut sink);
    assert_eq!(server.queue_len(), baseline + 1);
    net.close(leaves);
    settle(&mut server, &mut net, &mut sink);
    assert!(sink.is_empty());
    assert_eq!(server.queue_len(), baseline);
    assert!(!net.wires.contains_key(&leaves));
    assert!(net.wires.contains_key(&stays));
}

#[test]
fn helo_then_quit_gives_two_lines() {
    let mut server = DiscardServer::new();
    let mut net = Net::new(4096);
    let mut sink: Vec<Line> = Vec::new();
    let peer = PeerAddr::V6(1, 5009);
    net.connect(peer);
    net.send(peer, b"HELO server\n");
    net.send(peer, b"QUIT\n");
    settle(&mut server, &mut net, &mut sink);
    assert_eq!(
        sink,
        vec![
            Line { peer, text: b"HELO server".to_vec(), wire_len: 12 },
            Line { peer, text: b"QUIT".to_vec(), wire_len: 5 },
        ]
    );
    assert_eq!(server.queue_len(), 1);
}

#[test]
fn lines_arrive_whole_however_the_bytes_are_cut() {
    for chunk in 1..20 {
        let mut server = DiscardServer::new();
        let mut net = Net::new(chunk);
        let mut sink: Vec<Line> = Vec::new();
        let peer = client(7);
        net.connect(peer);
        net.send(peer, b"HELO server\nQUIT\nrest");
        net.close(peer);
        settle(&mut server, &mut net, &mut sink);
        let texts: Vec<&[u8]> = sink.iter().map(|l| l.text.as_slice()).collect();
        assert_eq!(texts, vec![&b"HELO server"[..], &b"QUIT"[..]]);
        assert_eq!(server.queue_len(), 0);
    }
}

#[test]
fn a_busy_connection_does_not_keep_new_ones_out() {
    let mut server = DiscardServer::new();
    let mut net = Net::new(4096);
    let mut sink: Vec<Line> = Vec::new();
    let busy = client(0);
    net.connect(busy);
    tick(&mut server, &mut net, &mut sink);
    for i in 1..=50u16 {
        net.send(busy, b"again\n");
        net.connect(client(i));
        net.send(client(i), b"hello\n");
        let waiting = server.queue_len();
        tick(&mut server, &mut net, &mut sink);
        assert!(net.backlog.is_empty());
        assert_eq!(server.queue_len(), waiting + 1);
        let mut ticks = 1;
        while !sink.iter().any(|l| l.peer == client(i)) {
            net.send(busy, b"again\n");
            tick(&mut server, &mut net, &mut sink);
            ticks += 1;
            assert!(ticks <= waiting + 2);
        }
    }
    assert!(sink.iter().filter(|l| l.peer == busy).count() >= 50);
}

#[test]
fn connections_are_served_in_the_order_they_came() {
    let mut server = DiscardServer::new();
    let mut net = Net::new(4096);
    let mut sink: Vec<Line> = Vec::new();
    for i in 0..3 {
        net.connect(client(i));
        net.send(client(i), b"x\n");
    }
    server.accept_step(net.accept());
    server.accept_step(net.accept());
    server.accept_step(net.accept());
    for _ in 0..3 {
        tick(&mut server, &mut net, &mut sink);
    }
    let order: Vec<PeerAddr> = sink.iter().map(|l| l.peer).collect();
    assert_eq!(order, vec![client(0), client(1), client(2)]);
}
