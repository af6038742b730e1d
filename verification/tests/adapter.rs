use ircat::filter::BufFilter;
use ircat::machine::{IRCatFilter, UnknownColor};

fn streamed(input: &[u8], chunk_size: usize, read_size: usize) -> Vec<u8> {
    let mut adapter = BufFilter::<IRCatFilter>::new();
    let mut output = Vec::new();
    let mut buf = vec![0u8; read_size];
    for chunk in input.chunks(chunk_size) {
        assert!(adapter.is_exhausted());
        assert_eq!(adapter.fill_buf(chunk), Ok(chunk.len()));
        while !adapter.is_exhausted() {
            let nread = adapter.read(&mut buf);
            assert!(nread > 0);
            output.extend_from_slice(&buf[..nread]);
        }
    }
    output
}

#[test]
fn new_adapter_is_exhausted() {
    let adapter = BufFilter::<IRCatFilter>::new();
    assert!(adapter.is_exhausted());
    assert_eq!(adapter.buffer(), b"");
}

#[test]
fn fill_buf_exposes_filtered_chunk() {
    let mut adapter = BufFilter::<IRCatFilter>::new();
    assert_eq!(adapter.fill_buf(b"\x034red\n"), Ok(6));
    assert!(!adapter.is_exhausted());
    assert_eq!(adapter.buffer(), b"\x1b[31mred\x1b[39m\x1b[49m\n");
}

#[test]
fn fill_buf_takes_nothing_while_bytes_are_buffered() {
    let mut adapter = BufFilter::<IRCatFilter>::new();
    assert_eq!(adapter.fill_buf(b"abc"), Ok(3));
    adapter.consume(1);
    assert_eq!(adapter.fill_buf(b"xyz"), Ok(0));
    assert_eq!(adapter.buffer(), b"bc");
    adapter.consume(2);
    assert_eq!(adapter.fill_buf(b"xyz"), Ok(3));
    assert_eq!(adapter.buffer(), b"xyz");
}

#[test]
fn fill_buf_with_empty_chunk_is_end_of_stream() {
    let mut adapter = BufFilter::<IRCatFilter>::new();
    assert_eq!(adapter.fill_buf(b""), Ok(0));
    assert!(adapter.is_exhausted());
    assert_eq!(adapter.buffer(), b"");
    let mut buf = [0u8; 4];
    assert_eq!(adapter.read(&mut buf), 0);
}

#[test]
fn chunk_may_shrink_to_nothing() {
    let mut adapter = BufFilter::<IRCatFilter>::new();
    assert_eq!(adapter.fill_buf(b"\x031"), Ok(2));
    assert!(adapter.is_exhausted());
    assert_eq!(adapter.fill_buf(b"2x"), Ok(2));
    assert_eq!(adapter.buffer(), b"\x1b[38;5;56mx");
}

#[test]
fn consume_advances_and_clamps() {
    let mut adapter = BufFilter::<IRCatFilter>::new();
    assert_eq!(adapter.fill_buf(b"hello"), Ok(5));
    adapter.consume(0);
    assert_eq!(adapter.buffer(), b"hello");
    adapter.consume(2);
    assert_eq!(adapter.buffer(), b"llo");
    adapter.consume(usize::MAX);
    assert_eq!(adapter.buffer(), b"");
    assert!(adapter.is_exhausted());
    adapter.consume(1);
    assert!(adapter.is_exhausted());
}

#[test]
fn read_serves_what_fits() {
    let mut adapter = BufFilter::<IRCatFilter>::new();
    assert_eq!(adapter.fill_buf(b"hello"), Ok(5));
    let mut buf = [b'.'; 3];
    assert_eq!(adapter.read(&mut buf), 3);
    assert_eq!(&buf, b"hel");
    assert_eq!(adapter.buffer(), b"lo");
    assert_eq!(adapter.read(&mut buf), 2);
    assert_eq!(&buf, b"lol");
    assert!(adapter.is_exhausted());
    assert_eq!(adapter.read(&mut buf), 0);
    assert_eq!(&buf, b"lol");
}

#[test]
fn read_into_empty_slice() {
    let mut adapter = BufFilter::<IRCatFilter>::new();
    assert_eq!(adapter.fill_buf(b"hello"), Ok(5));
    assert_eq!(adapter.read(&mut []), 0);
    assert_eq!(adapter.buffer(), b"hello");
}

#[test]
fn filter_state_outlives_refills() {
    let mut adapter = BufFilter::<IRCatFilter>::new();
    assert_eq!(adapter.fill_buf(b"\x032blue"), Ok(6));
    assert_eq!(adapter.buffer(), b"\x1b[34mblue");
    adapter.consume(9);
    assert_eq!(adapter.fill_buf(b"\n"), Ok(1));
    assert_eq!(adapter.buffer(), b"\x1b[39m\x1b[49m\n");
}

#[test]
fn unknown_color_in_chunk() {
    let mut adapter = BufFilter::<IRCatFilter>::new();
    assert_eq!(
        adapter.fill_buf(b"ok\x0316text"),
        Err(UnknownColor { color: 16 })
    );
    assert_eq!(adapter.buffer(), b"ok");
}

#[test]
fn streamed_output_is_independent_of_chunk_and_read_sizes() {
    let input = b"Colors \x034red \x033,12green \x0302blue\x03 none\n\x0315,0last\n";
    let whole = streamed(input, input.len(), 1024);
    assert_eq!(
        whole,
        b"Colors \x1b[31mred \x1b[32m\x1b[48;5;56mgreen \x1b[34mblue\x1b[39m\x1b[49m none\n\x1b[37m\x1b[47mlast\x1b[39m\x1b[49m\n"
    );
    for chunk_size in 1..=input.len() {
        for read_size in 1..=12 {
            assert_eq!(streamed(input, chunk_size, read_size), whole);
        }
    }
}
