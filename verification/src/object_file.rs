//! Object files, read with the `object` crate, and the sections they hold.
use vstd::prelude::*;

verus! {

/// The error with which the `object` crate refuses a file or a section.
#[verifier::external_type_specification]
#[verifier::external_body]
pub struct ExObjectError(object::Error);

/// An object file that the `object` crate has parsed: an `object::File` over
/// the file's bytes. It holds named sections; what it holds is known only by
/// what `section_named` says of it.
#[verifier::external_body]
pub struct ObjectFile<'data> {
    file: object::File<'data>,
}

/// A section as the object file gives it: where it lies, how large it is, and
/// its bytes or the error with which they could not be read.
pub struct NamedSection<'data> {
    pub address: u64,
    pub size: u64,
    pub data: Result<&'data [u8], object::Error>,
}

/// What a section holds, as plain values.
pub struct SectionContents {
    pub address: u64,
    pub size: u64,
    pub data: Result<Seq<u8>, object::Error>,
}

impl<'data> View for NamedSection<'data> {
    type V = SectionContents;

    open spec fn view(&self) -> SectionContents {
        SectionContents {
            address: self.address,
            size: self.size,
            data: match self.data {
                Ok(bytes) => Ok(bytes@),
                Err(error) => Err(error),
            },
        }
    }
}

/// What `object::File::parse` makes of the bytes of a file.
pub uninterp spec fn parsed(data: Seq<u8>) -> Result<ObjectFile<'static>, object::Error>;

/// The section that an object file holds under a name, if it holds one.
pub uninterp spec fn section_named(file: &ObjectFile<'_>, name: Seq<char>) -> Option<
    SectionContents,
>;

/// `object::File::parse`: reads the bytes as an object file of one of the
/// formats that the crate knows, or says why they are none. The outcome
/// depends on the bytes alone.
#[verifier::external_body]
pub(crate) fn parse_file<'data>(data: &'data [u8]) -> (outcome: Result<
    ObjectFile<'data>,
    object::Error,
>)
    ensures
        outcome == parsed(data@),
{
    Ok(ObjectFile { file: object::File::parse(data)? })
}

/// `object::Object::section_by_name`, with `address`, `size` and `data` of
/// `object::ObjectSection` on the section found: the section that the file
/// holds under the name, copied out as plain values, or `None` where it holds
/// none. The outcome depends on the file and the name alone.
#[verifier::external_body]
pub(crate) fn read_section<'data>(file: &ObjectFile<'data>, name: &str) -> (section: Option<
    NamedSection<'data>,
>)
    ensures
        match section {
            Some(found) => section_named(file, name@) == Some(found@),
            None => section_named(file, name@) is None,
        },
{
    let section = object::Object::section_by_name(&file.file, name)?;
    Some(
        NamedSection {
            address: object::ObjectSection::address(&section),
            size: object::ObjectSection::size(&section),
            data: object::ObjectSection::data(&section),
        },
    )
}

} // verus!
