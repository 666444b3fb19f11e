//! The framing of the history file: one record per line, each line closed by
//! a newline.

use vstd::prelude::*;

verus! {

/// The byte that closes a line.
pub const NEWLINE: u8 = 10;

/// The contents of a sequence of byte vectors.
pub open spec fn byte_lines(lines: Seq<Vec<u8>>) -> Seq<Seq<u8>> {
    lines.map_values(|line: Vec<u8>| line@)
}

/// `line` holds no newline, so it can stand in the file as one line.
pub open spec fn is_single_line(line: Seq<u8>) -> bool {
    forall|i: int| 0 <= i < line.len() ==> #[trigger] line[i] != NEWLINE
}

/// Every line of `lines` is a single line.
pub open spec fn all_single_lines(lines: Seq<Seq<u8>>) -> bool {
    forall|i: int| 0 <= i < lines.len() ==> is_single_line(#[trigger] lines[i])
}

/// The file that holds `lines`: each line followed by a newline.
pub open spec fn framed(lines: Seq<Seq<u8>>) -> Seq<u8>
    decreases lines.len(),
{
    if lines.len() == 0 {
        Seq::empty()
    } else {
        framed(lines.drop_last()) + lines.last().push(NEWLINE)
    }
}

/// A file read from the left: the lines that a newline has closed, and the
/// bytes after the last newline.
pub open spec fn scanned(bytes: Seq<u8>) -> (Seq<Seq<u8>>, Seq<u8>)
    decreases bytes.len(),
{
    if bytes.len() == 0 {
        (Seq::empty(), Seq::empty())
    } else {
        let (closed, open) = scanned(bytes.drop_last());
        if bytes.last() == NEWLINE {
            (closed.push(open), Seq::empty())
        } else {
            (closed, open.push(bytes.last()))
        }
    }
}

/// The lines of a file: the runs of bytes between newlines, without the
/// newlines. Bytes after the last newline count as a line unless there are
/// none.
pub open spec fn lines_of(bytes: Seq<u8>) -> Seq<Seq<u8>> {
    let (closed, open) = scanned(bytes);
    if open.len() > 0 {
        closed.push(open)
    } else {
        closed
    }
}

/// Whether `line` can stand in the file as one line.
pub fn check_single_line(line: &[u8]) -> (single: bool)
    ensures
        single == is_single_line(line@),
{
    let mut i: usize = 0;
    while i < line.len()
        invariant
            i <= line.len(),
            forall|k: int| 0 <= k < i ==> #[trigger] line[k] != NEWLINE,
        decreases line.len() - i,
    {
        if line[i] == NEWLINE {
            return false;
        }
        i += 1;
    }
    true
}

/// Cuts a file into its lines.
pub fn split_lines(bytes: &[u8]) -> (lines: Vec<Vec<u8>>)
    ensures
        byte_lines(lines@) == lines_of(bytes@),
{
    let mut lines: Vec<Vec<u8>> = Vec::new();
    let mut open: Vec<u8> = Vec::new();
    let mut i: usize = 0;
    assert(bytes@.take(0) =~= Seq::<u8>::empty());
    assert(byte_lines(lines@) =~= Seq::<Seq<u8>>::empty());
    while i < bytes.len()
        invariant
            i <= bytes.len(),
            (byte_lines(lines@), open@) == scanned(bytes@.take(i as int)),
        decreases bytes.len() - i,
    {
        proof {
            assert(bytes@.take(i as int + 1).drop_last() =~= bytes@.take(i as int));
        }
        if bytes[i] == NEWLINE {
            assert(byte_lines(lines@.push(open)) =~= byte_lines(lines@).push(open@));
            lines.push(open);
            open = Vec::new();
        } else {
            open.push(bytes[i]);
        }
        i += 1;
    }
    assert(bytes@.take(bytes.len() as int) =~= bytes@);
    if open.len() > 0 {
        assert(byte_lines(lines@.push(open)) =~= byte_lines(lines@).push(open@));
        lines.push(open);
    }
    lines
}

/// Puts lines together into a file, each followed by a newline. A line that
/// holds a newline itself cannot be framed: the result is then `None`.
pub fn frame_lines(lines: &Vec<Vec<u8>>) -> (file: Option<Vec<u8>>)
    ensures
        match file {
            Some(bytes) => all_single_lines(byte_lines(lines@)) && bytes@ == framed(
                byte_lines(lines@),
            ),
            None => !all_single_lines(byte_lines(lines@)),
        },
{
    let mut bytes: Vec<u8> = Vec::new();
    let mut i: usize = 0;
    assert(byte_lines(lines@).take(0) =~= Seq::<Seq<u8>>::empty());
    while i < lines.len()
        invariant
            i <= lines.len(),
            all_single_lines(byte_lines(lines@).take(i as int)),
            bytes@ == framed(byte_lines(lines@).take(i as int)),
        decreases lines.len() - i,
    {
        let line = &lines[i];
        if !check_single_line(line.as_slice()) {
            assert(!is_single_line(byte_lines(lines@)[i as int]));
            return None;
        }
        let ghost before = bytes@;
        let mut k: usize = 0;
        while k < line.len()
            invariant
                k <= line.len(),
                bytes@ == before + line@.take(k as int),
            decreases line.len() - k,
        {
            assert(line@.take(k as int + 1) =~= line@.take(k as int).push(line@[k as int]));
            bytes.push(line[k]);
            assert(bytes@ =~= before + line@.take(k as int + 1));
            k += 1;
        }
        bytes.push(NEWLINE);
        proof {
            let all = byte_lines(lines@);
            assert(line@.take(line.len() as int) =~= line@);
            assert(all.take(i as int + 1).drop_last() =~= all.take(i as int));
            assert(all.take(i as int + 1).last() == line@);
            assert(bytes@ =~= framed(all.take(i as int)) + line@.push(NEWLINE));
            assert forall|j: int| 0 <= j < i + 1 implies is_single_line(
                #[trigger] all.take(i as int + 1)[j],
            ) by {
                if j < i {
                    assert(all.take(i as int + 1)[j] == all.take(i as int)[j]);
                }
            }
        }
        i += 1;
    }
    assert(byte_lines(lines@).take(lines.len() as int) =~= byte_lines(lines@));
    Some(bytes)
}

/// Reading on after a newline: bytes without a newline, appended to a file
/// that ends a line, stay open.
pub proof fn lemma_scanned_open(file: Seq<u8>, line: Seq<u8>)
    requires
        scanned(file).1.len() == 0,
        is_single_line(line),
    ensures
        scanned(file + line) == (scanned(file).0, line),
    decreases line.len(),
{
    if line.len() == 0 {
        assert(file + line =~= file);
        assert(scanned(file).1 =~= line);
    } else {
        let front = line.drop_last();
        assert forall|i: int| 0 <= i < front.len() implies #[trigger] front[i] != NEWLINE by {
            assert(front[i] == line[i]);
        }
        lemma_scanned_open(file, front);
        assert((file + line).drop_last() =~= file + front);
        assert(line[line.len() - 1] != NEWLINE);
        assert(front.push(line.last()) =~= line);
    }
}

/// A framed file ends a line, and reads back as the lines it was framed from.
pub proof fn lemma_scanned_framed(lines: Seq<Seq<u8>>)
    requires
        all_single_lines(lines),
    ensures
        scanned(framed(lines)) == (lines, Seq::<u8>::empty()),
    decreases lines.len(),
{
    if lines.len() > 0 {
        let front = lines.drop_last();
        let last = lines.last();
        assert forall|i: int| 0 <= i < front.len() implies is_single_line(#[trigger] front[i]) by {
            assert(front[i] == lines[i]);
        }
        assert(is_single_line(lines[lines.len() - 1]));
        lemma_scanned_framed(front);
        lemma_scanned_open(framed(front), last);
        let file = framed(lines);
        assert(file =~= (framed(front) + last).push(NEWLINE));
        assert(file.drop_last() =~= framed(front) + last);
        assert(front.push(last) =~= lines);
    }
}

/// What is framed is what is read back: lines without newlines, written one
/// per line, are the lines of the file.
pub proof fn law_lines_of_framed(lines: Seq<Seq<u8>>)
    requires
        all_single_lines(lines),
    ensures
        lines_of(framed(lines)) == lines,
{
    lemma_scanned_framed(lines);
}

/// A file is its closed lines, each with its newline, and then its open
/// bytes.
pub proof fn lemma_framed_scanned(bytes: Seq<u8>)
    ensures
        framed(scanned(bytes).0) + scanned(bytes).1 == bytes,
    decreases bytes.len(),
{
    if bytes.len() == 0 {
        assert(framed(scanned(bytes).0) + scanned(bytes).1 =~= bytes);
    } else {
        let front = bytes.drop_last();
        lemma_framed_scanned(front);
        let (closed, open) = scanned(front);
        if bytes.last() == NEWLINE {
            assert(closed.push(open).drop_last() =~= closed);
            assert(framed(closed.push(open)) == framed(closed) + open.push(NEWLINE));
            assert(framed(closed) + open.push(NEWLINE) + Seq::<u8>::empty() =~= (framed(closed)
                + open).push(NEWLINE));
        } else {
            assert(framed(closed) + open.push(bytes.last()) =~= (framed(closed) + open).push(
                bytes.last(),
            ));
        }
        assert(front.push(bytes.last()) =~= bytes);
    }
}

/// What is read is what was framed: a file that is empty or ends in a
/// newline is its lines, framed.
pub proof fn law_framed_lines_of(bytes: Seq<u8>)
    requires
        bytes.len() == 0 || bytes.last() == NEWLINE,
    ensures
        framed(lines_of(bytes)) == bytes,
{
    lemma_framed_scanned(bytes);
    assert(framed(scanned(bytes).0) + Seq::<u8>::empty() =~= framed(scanned(bytes).0));
}

/// No line of a file holds a newline.
pub proof fn law_lines_are_single(bytes: Seq<u8>)
    ensures
        all_single_lines(lines_of(bytes)),
        is_single_line(scanned(bytes).1),
        all_single_lines(scanned(bytes).0),
    decreases bytes.len(),
{
    if bytes.len() > 0 {
        law_lines_are_single(bytes.drop_last());
    }
}

} // verus!
