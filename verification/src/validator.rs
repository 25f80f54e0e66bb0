//! The EOF container validator.
//!
//! A container is EOF-tagged when it starts with the two magic bytes
//! `0xEF 0x00`.  A tagged container must carry the supported version byte,
//! then a header: a sequence of section declarations, each one section-type
//! byte followed by a non-zero 16-bit big-endian size, closed by a
//! terminator byte.  A code section must be declared before a data section,
//! no section type may be declared twice, and the declared sizes must
//! account for every byte after the header.  Bytes without the magic prefix
//! are legacy payloads and are accepted unconditionally.

use vstd::prelude::*;

use crate::hex::from_hex;
use crate::hex::spec_from_hex;
use crate::hex::spec_hex_digit;

verus! {

/// First byte of the magic prefix.
pub const MAGIC_BYTE_0: u8 = 0xEF;

/// Second byte of the magic prefix.
pub const MAGIC_BYTE_1: u8 = 0x00;

/// The one supported container version.
pub const EOF_VERSION: u8 = 0x01;

/// Section-type byte that closes the header.
pub const SECTION_TERMINATOR: u8 = 0x00;

/// Section-type byte of the code section.
pub const SECTION_CODE: u8 = 0x01;

/// Section-type byte of the data section.
pub const SECTION_DATA: u8 = 0x02;

/// The reasons for which a container is rejected, in the order in which the
/// checks are made; the first failing check decides.
pub enum EofError {
    InvalidVersion,
    NoSectionTerminator,
    InvalidSectionId,
    DataSectionPrecedingCodeSection,
    MultipleSectionsWithSameId,
    TruncatedSectionSize,
    EmptySection,
    NoCodeSection,
    ContainerSizeMismatch,
}

impl EofError {
    /// The diagnostic message that [`Validator::validate_eof`] reports for
    /// this reason.
    pub open spec fn spec_message(self) -> Seq<char> {
        match self {
            EofError::InvalidVersion => "invalid version"@,
            EofError::NoSectionTerminator => "no section terminator"@,
            EofError::InvalidSectionId => "invalid section id"@,
            EofError::DataSectionPrecedingCodeSection => "data section preceding code section"@,
            EofError::MultipleSectionsWithSameId => "multiple sections with same id"@,
            EofError::TruncatedSectionSize => "truncated section size"@,
            EofError::EmptySection => "empty section"@,
            EofError::NoCodeSection => "no code section"@,
            EofError::ContainerSizeMismatch => "container size not equal to sum of section sizes"@,
        }
    }
}

/// True when the bytes opt into the EOF format: at least two bytes, and the
/// first two equal the magic prefix.
pub open spec fn spec_is_eof(code: Seq<u8>) -> bool {
    code.len() >= 2 && code[0] == MAGIC_BYTE_0 && code[1] == MAGIC_BYTE_1
}

/// One step of the section-header scan per declared section.
///
/// `pos` is the offset of the next section-type byte; `code_size` and
/// `data_size` are the sizes declared so far, `0` standing for "not yet
/// declared" (a declared size is never `0`, since an empty section is
/// rejected on the spot).  On success the result carries the offset just
/// past the terminator and the two declared sizes.
pub open spec fn spec_scan(code: Seq<u8>, pos: int, code_size: int, data_size: int) -> Result<
    (int, int, int),
    EofError,
>
    decreases code.len() - pos,
{
    if pos >= code.len() {
        Err(EofError::NoSectionTerminator)
    } else {
        let id = code[pos];
        if id == SECTION_TERMINATOR {
            Ok((pos + 1, code_size, data_size))
        } else if id != SECTION_CODE && id != SECTION_DATA {
            Err(EofError::InvalidSectionId)
        } else if id == SECTION_DATA && code_size == 0 {
            Err(EofError::DataSectionPrecedingCodeSection)
        } else if (id == SECTION_CODE && code_size != 0) || (id == SECTION_DATA && data_size
            != 0) {
            Err(EofError::MultipleSectionsWithSameId)
        } else if pos + 2 >= code.len() {
            Err(EofError::TruncatedSectionSize)
        } else {
            let size = 256 * (code[pos + 1] as int) + (code[pos + 2] as int);
            if size == 0 {
                Err(EofError::EmptySection)
            } else if id == SECTION_CODE {
                spec_scan(code, pos + 3, size, data_size)
            } else {
                spec_scan(code, pos + 3, code_size, size)
            }
        }
    }
}

/// The outcome of the full structural validation of an EOF-tagged
/// container: the version gate, the section-header scan, the code-section
/// presence check, and the reconciliation of the declared sizes with the
/// container's length, in that order.
pub open spec fn spec_validate(code: Seq<u8>) -> Result<(), EofError> {
    if code.len() < 3 || code[2] != EOF_VERSION {
        Err(EofError::InvalidVersion)
    } else {
        match spec_scan(code, 3, 0, 0) {
            Result::Err(e) => Err(e),
            Result::Ok((end, code_size, data_size)) => {
                if code_size == 0 {
                    Err(EofError::NoCodeSection)
                } else if code.len() != end + code_size + data_size {
                    Err(EofError::ContainerSizeMismatch)
                } else {
                    Ok(())
                }
            },
        }
    }
}

/// The one externally meaningful decision: a legacy payload (no magic
/// prefix) is always accepted, an EOF-tagged one exactly when it validates.
pub open spec fn spec_is_valid_container(code: Seq<u8>) -> bool {
    if spec_is_eof(code) {
        spec_validate(code) is Ok
    } else {
        true
    }
}

/// The container validator; it holds the format constants.
pub struct Validator {
    magic: Vec<u8>,
    version: u8,
    s_terminator: u8,
    s_code: u8,
    s_data: u8,
}

/// `spec_from_hex` on the magic string yields the two magic bytes.
proof fn lemma_magic_from_hex()
    ensures
        spec_from_hex("ef00"@) == seq![MAGIC_BYTE_0, MAGIC_BYTE_1],
        forall|i: int| 0 <= i < "ef00"@.len() ==> spec_hex_digit(#[trigger] "ef00"@[i]),
{
    reveal_strlit("ef00");
    let s = "ef00"@;
    assert(s.len() == 4);
    assert(s[0] == 'e' && s[1] == 'f' && s[2] == '0' && s[3] == '0');
    let s3 = s.drop_last();
    let s2 = s3.drop_last();
    let s1 = s2.drop_last();
    let s0 = s1.drop_last();
    assert(s0.len() == 0);
    assert(crate::hex::spec_strip_spaces(s0) =~= s0);
    assert(crate::hex::spec_strip_spaces(s1) =~= s1);
    assert(crate::hex::spec_strip_spaces(s2) =~= s2);
    assert(crate::hex::spec_strip_spaces(s3) =~= s3);
    assert(crate::hex::spec_strip_spaces(s) =~= s);
    assert(s.skip(2).skip(2) =~= s0);
    assert(crate::hex::spec_hex_bytes(s.skip(2).skip(2)) =~= Seq::<u8>::empty());
    assert(s.skip(2).len() == 2 && s.skip(2)[0] == '0' && s.skip(2)[1] == '0');
    assert(crate::hex::spec_hex_bytes(s.skip(2)) =~= seq![MAGIC_BYTE_1]);
    assert(crate::hex::spec_hex_bytes(s) =~= seq![MAGIC_BYTE_0, MAGIC_BYTE_1]);
}

impl Validator {
    /// The constructor establishes this well-formedness: the fields hold
    /// exactly the format constants.
    pub closed spec fn wf(&self) -> bool {
        &&& self.magic@ == seq![MAGIC_BYTE_0, MAGIC_BYTE_1]
        &&& self.version == EOF_VERSION
        &&& self.s_terminator == SECTION_TERMINATOR
        &&& self.s_code == SECTION_CODE
        &&& self.s_data == SECTION_DATA
    }

    /// A fresh validator, loaded with the format constants.
    pub fn new() -> (v: Validator)
        ensures
            v.wf(),
    {
        proof {
            lemma_magic_from_hex();
        }
        let magic = from_hex("ef00");
        Validator {
            magic,
            version: 0x01,
            s_terminator: 0x00,
            s_code: 0x01,
            s_data: 0x02,
        }
    }

    /// True exactly when the bytes carry the EOF magic prefix.
    pub fn is_eof(&self, code: Vec<u8>) -> (r: bool)
        requires
            self.wf(),
        ensures
            r == spec_is_eof(code@),
    {
        if code.len() >= 2 {
            code[0] == self.magic[0] && code[1] == self.magic[1]
        } else {
            false
        }
    }

    /// Full structural validation of an EOF-tagged container.  The result
    /// is `Ok` exactly when `spec_validate` accepts the bytes, and a
    /// rejection carries the message of the first failing check.
    pub fn validate_eof(&self, code: Vec<u8>) -> (r: Result<(), &'static str>)
        requires
            self.wf(),
        ensures
            r is Ok <==> spec_validate(code@) is Ok,
            r matches Err(m) ==> (spec_validate(code@) matches Err(e) && m@ == e.spec_message()),
    {
        if code.len() < 3 || code[2] != self.version {
            return Err("invalid version");
        }
        let mut pos: usize = 3;
        let mut code_size: u16 = 0;
        let mut data_size: u16 = 0;

        loop
            invariant_except_break
                self.wf(),
                code@.len() >= 3,
                code@[2] == EOF_VERSION,
                3 <= pos <= code@.len(),
                spec_scan(code@, 3, 0, 0) == spec_scan(
                    code@,
                    pos as int,
                    code_size as int,
                    data_size as int,
                ),
            ensures
                pos <= code@.len(),
                code@.len() >= 3,
                code@[2] == EOF_VERSION,
                spec_scan(code@, 3, 0, 0) == Ok::<(int, int, int), EofError>(
                    (pos as int, code_size as int, data_size as int),
                ),
            decreases code@.len() - pos,
        {
            if pos >= code.len() {
                return Err("no section terminator");
            }
            let section_id = code[pos];
            pos = pos + 1;
            if section_id == self.s_terminator {
                proof {
                    assert(spec_scan(code@, pos - 1, code_size as int, data_size as int)
                        == Ok::<(int, int, int), EofError>(
                        (pos as int, code_size as int, data_size as int),
                    ));
                }
                break;
            }
            if section_id != self.s_code && section_id != self.s_data {
                return Err("invalid section id");
            }
            if section_id == self.s_data && code_size == 0 {
                return Err("data section preceding code section");
            }
            if (section_id == self.s_code && code_size != 0) || (section_id == self.s_data
                && data_size != 0) {
                return Err("multiple sections with same id");
            }
            if code.len() - pos < 2 {
                return Err("truncated section size");
            }
            let size: u16 = (code[pos] as u16) * 256 + (code[pos + 1] as u16);
            pos = pos + 2;
            if size == 0 {
                return Err("empty section");
            }
            if section_id == self.s_code {
                code_size = size;
            } else {
                data_size = size;
            }
        }
        if code_size == 0 {
            return Err("no code section");
        }
        if code.len() - pos != code_size as usize + data_size as usize {
            return Err("container size not equal to sum of section sizes");
        }
        Ok(())
    }

    /// The composed entry point: a legacy payload is accepted
    /// unconditionally, an EOF-tagged one exactly when it validates.
    pub fn is_valid_container(&self, code: &Vec<u8>) -> (r: bool)
        requires
            self.wf(),
        ensures
            r == spec_is_valid_container(code@),
    {
        if self.is_eof(vstd::slice::slice_to_vec(code.as_slice())) {
            return self.validate_eof(vstd::slice::slice_to_vec(code.as_slice())).is_ok();
        }
        true
    }
}

/// Legacy passthrough: every byte sequence that does not start with the
/// magic prefix is accepted, whatever it holds.
pub proof fn lemma_legacy_passthrough(code: Seq<u8>)
    requires
        !spec_is_eof(code),
    ensures
        spec_is_valid_container(code),
{
}

/// Idempotence: any two results that `validate_eof`'s contract admits for
/// the same bytes agree, both on acceptance and on the reported message.
pub proof fn lemma_validate_idempotent(code: Seq<u8>, r1: Result<(), &str>, r2: Result<(), &str>)
    requires
        r1 is Ok <==> spec_validate(code) is Ok,
        r2 is Ok <==> spec_validate(code) is Ok,
        r1 matches Err(m1) ==> (spec_validate(code) matches Err(e) && m1@ == e.spec_message()),
        r2 matches Err(m2) ==> (spec_validate(code) matches Err(e) && m2@ == e.spec_message()),
    ensures
        r1 is Ok <==> r2 is Ok,
        r1 matches Err(m1) ==> (r2 matches Err(m2) && m1@ == m2@),
{
}

} // verus!
