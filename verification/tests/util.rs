use io2::io::adaptors::first_failure;
use io2::io::{
    copy, empty, repeat, sink, Bytes, Cursor, Data, Error, ErrorKind, Length, Read, ReadExt,
    Stream, Write, WriteExt,
};

fn count<R: Read>(mut bytes: Bytes<R>) -> usize {
    let mut n = 0;
    while bytes.next().is_some() {
        n += 1;
    }
    n
}

#[test]
fn sink_sinks() {
    let mut s = sink();
    assert_eq!(s.write(&[]), Ok(0));
    assert_eq!(s.write(&[0]), Ok(1));
    assert_eq!(s.write(&[0; 1024]), Ok(1024));
    assert_eq!(s.by_ref().write(&[0; 1024]), Ok(1024));
}

#[test]
fn empty_reads() {
    let mut e = empty();
    assert_eq!(e.read(&mut []), Ok(0));
    assert_eq!(e.read(&mut [0]), Ok(0));
    assert_eq!(e.read(&mut [0; 1024]), Ok(0));
    assert_eq!(e.by_ref().read(&mut [0; 1024]), Ok(0));
}

#[test]
fn repeat_repeats() {
    let mut r = repeat(4);
    let mut b = [0; 1024];
    assert_eq!(r.read(&mut b), Ok(1024));
    assert!(b.iter().all(|b| *b == 4));
}

#[test]
fn take_some_bytes() {
    assert_eq!(count(repeat(4).take(100).bytes()), 100);
    assert_eq!(repeat(4).take(100).bytes().next(), Some(Ok(4)));
    assert_eq!(count(repeat(1).take(10).chain(repeat(2).take(10)).bytes()), 20);
}

#[test]
fn tee() {
    let mut buf = [0; 10];
    {
        let mut ptr: &mut [u8] = &mut buf;
        assert_eq!(repeat(4).tee(&mut ptr).take(5).read(&mut [0; 10]), Ok(5));
    }
    assert_eq!(buf, [4, 4, 4, 4, 4, 0, 0, 0, 0, 0]);
}

#[test]
fn broadcast() {
    let mut buf1 = [0; 10];
    let mut buf2 = [0; 10];
    {
        let mut ptr1: &mut [u8] = &mut buf1;
        let mut ptr2: &mut [u8] = &mut buf2;

        assert_eq!((&mut ptr1).broadcast(&mut ptr2).write(&[1, 2, 3]), Ok(3));
    }
    assert_eq!(buf1, buf2);
    assert_eq!(buf1, [1, 2, 3, 0, 0, 0, 0, 0, 0, 0]);
}

#[test]
fn take_yields_exactly_its_quota() {
    let mut t = repeat(7).take(10);
    let mut buf = [0u8; 4];
    assert_eq!(t.read(&mut buf), Ok(4));
    assert_eq!(buf, [7, 7, 7, 7]);
    assert_eq!(t.read(&mut buf), Ok(4));
    let mut buf = [0u8; 4];
    assert_eq!(t.read(&mut buf), Ok(2));
    assert_eq!(buf, [7, 7, 0, 0]);
    assert_eq!(t.read(&mut buf), Ok(0));
    assert_eq!(t.read(&mut buf), Ok(0));
}

struct Failing;

impl Read for Failing {
    fn pending(&self) -> Stream {
        unreachable!()
    }
    fn unfailing(&self) -> bool {
        unreachable!()
    }
    fn delivers(&self, _: Length) -> Option<Length> {
        None
    }
    fn read(&mut self, _buf: &mut [u8]) -> Result<usize, Error> {
        Err(Error::new(ErrorKind::Other, "broken", None))
    }
}

impl Write for Failing {
    fn took(&self, _: Data, _: &Self) -> bool {
        unreachable!()
    }
    fn has_room(&self, _: Length) -> bool {
        unreachable!()
    }
    fn room_for_less(&self, _: Length, _: Length) {}
    fn room_left(&self, _: Data, _: &Self, _: Length) {}
    fn took_nothing(&self) {}
    fn took_both(&self, _: Data, _: &Self, _: Data, _: &Self) {}
    fn write(&mut self, _buf: &[u8]) -> Result<usize, Error> {
        Err(Error::new(ErrorKind::BrokenPipe, "broken", None))
    }
}

#[test]
fn take_with_no_quota_does_not_ask_the_source() {
    let mut t = Failing.take(0);
    assert_eq!(t.read(&mut [0u8; 4]), Ok(0));
    let mut t = Failing.take(1);
    assert_eq!(t.read(&mut [0u8; 4]).unwrap_err().kind(), ErrorKind::Other);
}

#[test]
fn chain_yields_first_then_second() {
    let a = [1u8, 2, 3];
    let b = [4u8, 5];
    let mut c = Cursor::new(&a[..]).chain(Cursor::new(&b[..]));
    let mut out = Vec::new();
    let mut buf = [0u8; 2];
    loop {
        let n = c.read(&mut buf).unwrap();
        if n == 0 {
            break;
        }
        out.extend_from_slice(&buf[..n]);
    }
    assert_eq!(out, vec![1u8, 2, 3, 4, 5]);
    assert_eq!(c.read(&mut buf), Ok(0));

    let mut c = Cursor::new(&a[..]).chain(Cursor::new(&b[..]));
    let mut all = Vec::new();
    c.read_to_end(&mut all).unwrap();
    assert_eq!(all, vec![1u8, 2, 3, 4, 5]);
}

#[test]
fn chain_bridges_the_boundary_in_one_call() {
    let b = [4u8, 5];
    let mut c = empty().chain(Cursor::new(&b[..]));
    let mut buf = [0u8; 8];
    assert_eq!(c.read(&mut buf), Ok(2));
    assert_eq!(&buf[..2], &[4, 5]);
}

#[test]
fn chain_latches_on_an_empty_read() {
    let a = [1u8, 2, 3];
    let b = [4u8, 5];
    let mut c = Cursor::new(&a[..]).chain(Cursor::new(&b[..]));
    assert_eq!(c.read(&mut []), Ok(0));
    let mut buf = [0u8; 8];
    assert_eq!(c.read(&mut buf), Ok(2));
    assert_eq!(&buf[..2], &[4, 5]);
}

#[test]
fn broadcast_to_two_cursors() {
    let mut b = Cursor::new(Vec::new()).broadcast(Cursor::new(Vec::new()));
    assert_eq!(b.write(&[1, 2, 3]), Ok(3));
    assert_eq!(b.write(&[4]), Ok(1));
    assert_eq!(b.flush(), Ok(()));
    let mut first = Cursor::new(Vec::new());
    let mut second = Cursor::new(Vec::new());
    {
        let mut both = (&mut first).broadcast(&mut second);
        assert_eq!(both.write(&[1, 2, 3]), Ok(3));
        assert_eq!(both.write(&[4]), Ok(1));
    }
    assert_eq!(first.get_ref(), second.get_ref());
    assert_eq!(first.into_inner(), vec![1u8, 2, 3, 4]);
}

#[test]
fn broadcast_gives_the_second_what_the_first_took() {
    let mut small = [0u8; 2];
    let mut large = Cursor::new(Vec::new());
    {
        let mut both = Cursor::new(&mut small[..]).broadcast(&mut large);
        assert_eq!(both.write(&[1, 2, 3]), Ok(2));
        assert_eq!(both.write(&[4]), Ok(0));
    }
    assert_eq!(small, [1, 2]);
    assert_eq!(large.into_inner(), vec![1u8, 2]);
}

#[test]
fn broadcast_fails_when_the_second_is_full() {
    let mut small = [0u8; 2];
    let mut large = Cursor::new(Vec::new());
    let mut both = (&mut large).broadcast(Cursor::new(&mut small[..]));
    let e = both.write(&[1, 2, 3]).unwrap_err();
    assert_eq!(e.kind(), ErrorKind::EndOfFile);
}

#[test]
fn broadcast_flush_reports_the_first_failure() {
    struct NoFlush(ErrorKind);
    impl Write for NoFlush {
        fn took(&self, _: Data, _: &Self) -> bool {
            unreachable!()
        }
        fn has_room(&self, _: Length) -> bool {
            unreachable!()
        }
        fn room_for_less(&self, _: Length, _: Length) {}
        fn room_left(&self, _: Data, _: &Self, _: Length) {}
        fn took_nothing(&self) {}
        fn took_both(&self, _: Data, _: &Self, _: Data, _: &Self) {}
        fn write(&mut self, buf: &[u8]) -> Result<usize, Error> {
            Ok(buf.len())
        }
        fn flush(&mut self) -> Result<(), Error> {
            Err(Error::new(self.0, "cannot flush", None))
        }
    }
    let mut b = NoFlush(ErrorKind::TimedOut).broadcast(NoFlush(ErrorKind::BrokenPipe));
    assert_eq!(b.flush().unwrap_err().kind(), ErrorKind::TimedOut);
    let mut b = sink().broadcast(NoFlush(ErrorKind::BrokenPipe));
    assert_eq!(b.flush().unwrap_err().kind(), ErrorKind::BrokenPipe);
}

#[test]
fn tee_read_fails_when_the_write_fails() {
    let mut t = repeat(4).tee(Failing);
    let mut buf = [0u8; 3];
    assert_eq!(t.read(&mut buf).unwrap_err().kind(), ErrorKind::BrokenPipe);
    assert_eq!(buf, [4, 4, 4]);
}

#[test]
fn write_all_writes_everything_or_reports_the_end() {
    let mut v = Cursor::new(Vec::new());
    assert_eq!(v.write_all(&[1, 2, 3]), Ok(()));
    assert_eq!(v.get_ref(), &vec![1u8, 2, 3]);

    let mut store = [0u8; 2];
    let mut c = Cursor::new(&mut store[..]);
    let e = c.write_all(&[1, 2, 3]).unwrap_err();
    assert_eq!(e.kind(), ErrorKind::EndOfFile);
    assert_eq!(e.description(), "failed to write whole buffer: eof reached");
    assert_eq!(e.detail(), &None);
    assert_eq!(store, [1, 2]);

    assert_eq!(Failing.write_all(&[]), Ok(()));
    assert_eq!(Failing.write_all(&[1]).unwrap_err().kind(), ErrorKind::BrokenPipe);
}

#[test]
fn copy_moves_everything_and_counts_it() {
    let data: Vec<u8> = (0..200_000u32).map(|i| (i % 251) as u8).collect();
    let mut source = Cursor::new(data.clone());
    let mut target = Cursor::new(Vec::new());
    assert_eq!(copy(&mut source, &mut target), Ok(200_000));
    assert_eq!(target.into_inner(), data);
    assert_eq!(source.position(), 200_000);

    let mut none = empty();
    let mut s = sink();
    assert_eq!(copy(&mut none, &mut s), Ok(0));

    let mut limited = repeat(1).take(70_000);
    let mut out = Vec::new();
    assert_eq!(copy(&mut limited, &mut out), Ok(70_000));
    assert_eq!(out.len(), 70_000);
    assert!(out.iter().all(|b| *b == 1));
}

#[test]
fn copy_stops_at_the_first_failure() {
    let mut source = Cursor::new(vec![1u8, 2, 3]);
    let mut store = [0u8; 2];
    let mut target = Cursor::new(&mut store[..]);
    assert_eq!(copy(&mut source, &mut target).unwrap_err().kind(), ErrorKind::EndOfFile);

    let mut target = Cursor::new(Vec::new());
    assert_eq!(copy(&mut Failing, &mut target).unwrap_err().kind(), ErrorKind::Other);
}

#[test]
fn read_to_end_keeps_what_was_there() {
    let mut v = vec![9u8];
    let data = [1u8, 2];
    let mut s: &[u8] = &data;
    assert_eq!(s.read_to_end(&mut v), Ok(()));
    assert_eq!(v, vec![9u8, 1, 2]);
    assert_eq!(Failing.read_to_end(&mut v).unwrap_err().kind(), ErrorKind::Other);
    assert_eq!(v, vec![9u8, 1, 2]);
}

#[test]
fn bytes_pass_errors_on() {
    let mut b = Failing.bytes();
    assert_eq!(b.next().unwrap().unwrap_err().kind(), ErrorKind::Other);
    let data = [1u8];
    let mut b = Cursor::new(&data[..]).bytes();
    assert_eq!(b.next(), Some(Ok(1)));
    assert_eq!(b.next(), None);
}

#[test]
fn first_failure_of_two_steps() {
    let e1 = Error::new(ErrorKind::TimedOut, "one", None);
    let e2 = Error::new(ErrorKind::BrokenPipe, "two", None);
    assert_eq!(first_failure(Ok(()), Ok(())), Ok(()));
    assert_eq!(first_failure(Err(e1.clone()), Ok(())), Err(e1.clone()));
    assert_eq!(first_failure(Ok(()), Err(e2.clone())), Err(e2.clone()));
    assert_eq!(first_failure(Err(e1.clone()), Err(e2)), Err(e1));
}
