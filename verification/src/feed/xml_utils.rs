//! Writing whole elements to a `quick_xml` writer.
use vstd::prelude::*;
use crate::error::AppError;
use crate::feed::xml::{
    cdata_element, text_element, write_cdata, write_end, write_start, write_text, xml_writer_indent, xml_written,
};

verus! {

/// An XML writer over an in-memory buffer.
pub type XmlWriter = quick_xml::Writer<std::io::Cursor<Vec<u8>>>;

/// Writes `<tag>text</tag>`, the text escaped.
pub fn write_text_element(writer: &mut XmlWriter, tag: &str, text: &str) -> (r: Result<(), AppError>)
    ensures
        xml_writer_indent(*final(writer)) == xml_writer_indent(*old(writer)),
        r is Ok,
        xml_written(*final(writer)) == xml_written(*old(writer)) + text_element(tag@, text@),
        r matches Err(e) ==> e is Render,
{
    let no_attrs: Vec<(String, String)> = Vec::new();
    match write_start(writer, tag, &no_attrs) {
        Ok(()) => {},
        Err(m) => return Err(AppError::Render(m)),
    }
    match write_text(writer, text) {
        Ok(()) => {},
        Err(m) => return Err(AppError::Render(m)),
    }
    match write_end(writer, tag) {
        Ok(()) => {},
        Err(m) => return Err(AppError::Render(m)),
    }
    assert(crate::feed::xml::attrs_view(no_attrs@) =~= Seq::<(Seq<char>, Seq<char>)>::empty());
    assert(xml_written(*writer) =~= xml_written(*old(writer)) + text_element(tag@, text@));
    Ok(())
}

/// Writes `<tag><![CDATA[content]]></tag>`.
pub fn write_cdata_element(writer: &mut XmlWriter, tag: &str, content: &str) -> (r: Result<(), AppError>)
    ensures
        xml_writer_indent(*final(writer)) == xml_writer_indent(*old(writer)),
        r is Ok,
        xml_written(*final(writer)) == xml_written(*old(writer)) + cdata_element(tag@, content@),
        r matches Err(e) ==> e is Render,
{
    let no_attrs: Vec<(String, String)> = Vec::new();
    match write_start(writer, tag, &no_attrs) {
        Ok(()) => {},
        Err(m) => return Err(AppError::Render(m)),
    }
    match write_cdata(writer, content) {
        Ok(()) => {},
        Err(m) => return Err(AppError::Render(m)),
    }
    match write_end(writer, tag) {
        Ok(()) => {},
        Err(m) => return Err(AppError::Render(m)),
    }
    assert(crate::feed::xml::attrs_view(no_attrs@) =~= Seq::<(Seq<char>, Seq<char>)>::empty());
    assert(xml_written(*writer) =~= xml_written(*old(writer)) + cdata_element(tag@, content@));
    Ok(())
}

} // verus!
