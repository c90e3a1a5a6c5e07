use std::collections::VecDeque;

use usb2snes::error::UsbError;
use usb2snes::exchange::{Exchange, Phase, MAX_READ_FAILURES, READ_SIZE};
use usb2snes::frame::encode_get_memory;

/// A scripted transport: each read takes the next outcome of its queue, and
/// an exhausted queue reads as a failure.
struct FakeTransport {
    drain: VecDeque<Option<Vec<u8>>>,
    write_ok: bool,
    reads: VecDeque<Option<Vec<u8>>>,
    drain_reads: usize,
    response_reads: usize,
    failed_reads: usize,
    written: Vec<Vec<u8>>,
}

impl FakeTransport {
    fn new(drain: Vec<Option<Vec<u8>>>, write_ok: bool, reads: Vec<Option<Vec<u8>>>) -> FakeTransport {
        FakeTransport {
            drain: drain.into(),
            write_ok,
            reads: reads.into(),
            drain_reads: 0,
            response_reads: 0,
            failed_reads: 0,
            written: Vec::new(),
        }
    }

    fn run(&mut self, mut ex: Exchange) -> Result<Vec<u8>, UsbError> {
        loop {
            match ex.phase() {
                Phase::Draining => {
                    self.drain_reads += 1;
                    let got = self.drain.pop_front().flatten();
                    ex.on_drain_read(got.map(|b| b.len()));
                }
                Phase::Writing => {
                    self.written.push(ex.command().to_vec());
                    ex.on_write(self.write_ok);
                }
                Phase::Reading => {
                    self.response_reads += 1;
                    match self.reads.pop_front().flatten() {
                        Some(bytes) => ex.on_read(&bytes),
                        None => {
                            self.failed_reads += 1;
                            ex.on_read_failed();
                        }
                    }
                }
                Phase::Done | Phase::Failed(_) => return ex.finish().unwrap(),
            }
        }
    }
}

fn chunk(start: u8, len: usize) -> Vec<u8> {
    (0..len).map(|i| start.wrapping_add(i as u8)).collect()
}

#[test]
fn exact_chunks_give_exact_payload_in_order() {
    let a = chunk(0, 512);
    let b = chunk(100, 512);
    let c = chunk(200, 24);
    let mut t = FakeTransport::new(vec![Some(vec![])], true, vec![Some(a.clone()), Some(b.clone()), Some(c.clone())]);
    let r = t.run(Exchange::get_memory(0xF50000, 1048)).unwrap();
    let mut expected = a;
    expected.extend(b);
    expected.extend(c);
    assert_eq!(r.len(), 1048);
    assert_eq!(r, expected);
    assert_eq!(t.response_reads, 3);
}

#[test]
fn overshoot_is_kept() {
    let a = chunk(1, 512);
    let b = chunk(7, 512);
    let mut t = FakeTransport::new(vec![], true, vec![Some(a.clone()), Some(b.clone()), Some(chunk(9, 512))]);
    let r = t.run(Exchange::get_memory(0, 600)).unwrap();
    assert_eq!(r.len(), 1024);
    assert_eq!(&r[..512], &a[..]);
    assert_eq!(&r[512..], &b[..]);
    assert_eq!(t.response_reads, 2);
}

#[test]
fn failures_below_the_limit_are_tolerated() {
    let mut reads: Vec<Option<Vec<u8>>> = vec![None; 999];
    reads.push(Some(chunk(3, 16)));
    let mut t = FakeTransport::new(vec![], true, reads);
    let r = t.run(Exchange::get_memory(0x10, 16)).unwrap();
    assert_eq!(r, chunk(3, 16));
    assert_eq!(t.failed_reads, 999);
}

#[test]
fn continuous_failures_exhaust_after_exactly_the_limit() {
    let mut t = FakeTransport::new(vec![], true, vec![]);
    let r = t.run(Exchange::get_memory(0, 2048));
    assert_eq!(r, Err(UsbError::ReadExhausted));
    assert_eq!(MAX_READ_FAILURES, 1000);
    assert_eq!(t.failed_reads, 1000);
    assert_eq!(t.response_reads, 1000);
}

#[test]
fn drain_consumes_stale_chunks_then_the_empty_read() {
    let stale = vec![Some(chunk(0, 64)), Some(chunk(1, 64)), Some(chunk(2, 10)), Some(vec![]), Some(chunk(5, 64))];
    let mut t = FakeTransport::new(stale, true, vec![Some(chunk(40, 4))]);
    let r = t.run(Exchange::get_memory(0, 4)).unwrap();
    assert_eq!(t.drain_reads, 4);
    assert_eq!(t.drain.len(), 1);
    assert_eq!(r, chunk(40, 4));
}

#[test]
fn drain_stops_at_a_failed_read() {
    let stale = vec![Some(chunk(0, 64)), None, Some(chunk(2, 64))];
    let mut t = FakeTransport::new(stale, true, vec![Some(chunk(1, 2))]);
    t.run(Exchange::get_memory(0, 2)).unwrap();
    assert_eq!(t.drain_reads, 2);
}

#[test]
fn write_happens_once_after_the_drain() {
    let mut t = FakeTransport::new(vec![Some(chunk(0, 3)), Some(vec![])], true, vec![Some(chunk(0, 8))]);
    t.run(Exchange::get_memory(0x123456, 8)).unwrap();
    assert_eq!(t.written, vec![encode_get_memory(0x123456, 8)]);
}

#[test]
fn write_failure_is_not_retried() {
    let mut t = FakeTransport::new(vec![], false, vec![Some(chunk(0, 8))]);
    let r = t.run(Exchange::get_memory(0, 8));
    assert_eq!(r, Err(UsbError::WriteFailed));
    assert_eq!(t.written.len(), 1);
    assert_eq!(t.response_reads, 0);
}

#[test]
fn zero_size_still_reads_once() {
    let mut t = FakeTransport::new(vec![], true, vec![]);
    let r = t.run(Exchange::get_memory(0, 0)).unwrap();
    assert!(r.is_empty());
    assert_eq!(t.response_reads, 1);
}

#[test]
fn unfinished_exchange_has_no_outcome() {
    let mut ex = Exchange::new(encode_get_memory(0, 4), 4);
    assert_eq!(ex.phase(), Phase::Draining);
    ex.on_drain_read(Some(0));
    assert_eq!(ex.phase(), Phase::Writing);
    ex.on_write(true);
    assert_eq!(ex.phase(), Phase::Reading);
    ex.on_read(&[1, 2]);
    assert_eq!(ex.phase(), Phase::Reading);
    assert!(ex.finish().is_none());
    assert_eq!(READ_SIZE, 512);
}
