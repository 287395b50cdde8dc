//! The desktop entry by which a desktop starts the viewer on a file.

use vstd::prelude::*;

verus! {

/// One byte of the path of the program as a desktop entry writes it: a
/// backslash and a letter for a blank, a line feed, a tab and a carriage
/// return, two backslashes for one, and any other byte as it is.
pub open spec fn escaped_byte(byte: u8) -> Seq<u8> {
    if byte == 32 {
        seq![92u8, 115u8]
    } else if byte == 10 {
        seq![92u8, 110u8]
    } else if byte == 9 {
        seq![92u8, 116u8]
    } else if byte == 13 {
        seq![92u8, 114u8]
    } else if byte == 92 {
        seq![92u8, 92u8]
    } else {
        seq![byte]
    }
}

/// The path of the program as a desktop entry writes it.
pub open spec fn escaped(bytes: Seq<u8>) -> Seq<u8>
    decreases bytes.len(),
{
    if bytes.len() == 0 {
        Seq::empty()
    } else {
        escaped(bytes.drop_last()) + escaped_byte(bytes.last())
    }
}

/// What follows the path of the program: the viewer is to open the file that
/// the desktop names.
pub open spec fn open_file() -> Seq<u8> {
    seq![32u8, 111u8, 112u8, 101u8, 110u8, 32u8, 37u8, 102u8, 10u8]
}

/// `Exec=`, the key of the line that names the program.
pub open spec fn exec_key() -> Seq<u8> {
    seq![69u8, 120u8, 101u8, 99u8, 61u8]
}

/// The desktop entry: `content`, and the line that names the program `exec`
/// and tells it to open the file.
pub open spec fn entry(content: Seq<u8>, exec: Seq<u8>) -> Seq<u8> {
    content + exec_key() + escaped(exec) + open_file()
}

/// The path of the program as a desktop entry writes it.
pub fn escape_exec(exec: &[u8]) -> (written: Vec<u8>)
    ensures
        written@ == escaped(exec@),
{
    let mut written: Vec<u8> = Vec::new();
    let mut i: usize = 0;
    while i < exec.len()
        invariant
            i <= exec.len(),
            written@ == escaped(exec@.take(i as int)),
        decreases exec.len() - i,
    {
        let byte = exec[i];
        let ghost before = written@;
        if byte == 32 {
            written.push(92);
            written.push(115);
        } else if byte == 10 {
            written.push(92);
            written.push(110);
        } else if byte == 9 {
            written.push(92);
            written.push(116);
        } else if byte == 13 {
            written.push(92);
            written.push(114);
        } else if byte == 92 {
            written.push(92);
            written.push(92);
        } else {
            written.push(byte);
        }
        proof {
            let taken = exec@.take(i + 1);
            assert(taken.drop_last() =~= exec@.take(i as int));
            assert(taken.last() == byte);
            assert(written@ =~= before + escaped_byte(byte));
        }
        i = i + 1;
    }
    proof {
        assert(exec@.take(i as int) =~= exec@);
    }
    written
}

/// The desktop entry: `content`, and the line that names the program `exec`
/// and tells it to open the file.
pub fn desktop_entry(content: &[u8], exec: &[u8]) -> (written: Vec<u8>)
    ensures
        written@ == entry(content@, exec@),
{
    let mut written: Vec<u8> = Vec::new();
    written.extend_from_slice(content);
    let key: [u8; 5] = [69, 120, 101, 99, 61];
    written.extend_from_slice(key.as_slice());
    let path = escape_exec(exec);
    written.extend_from_slice(path.as_slice());
    let open: [u8; 9] = [32, 111, 112, 101, 110, 32, 37, 102, 10];
    written.extend_from_slice(open.as_slice());
    proof {
        assert(key@ =~= exec_key());
        assert(open@ =~= open_file());
        assert(written@ =~= content@ + key@ + path@ + open@);
    }
    written
}

} // verus!
