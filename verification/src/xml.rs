use vstd::prelude::*;
use quick_xml::events::Event;
use quick_xml::Reader;

verus! {

#[verifier::external_type_specification]
#[verifier::external_body]
#[verifier::reject_recursive_types(R)]
pub struct ExXmlReader<R>(quick_xml::Reader<R>);

/// One event of an XML document, as the sitemap logic reads it: tag names
/// as raw bytes, text already unescaped.
#[derive(Debug)]
pub enum XmlEvent {
    Start(Vec<u8>),
    Empty(Vec<u8>),
    End(Vec<u8>),
    Text(Result<String, quick_xml::Error>),
    Eof,
    Other,
}

/// The mathematical form of one read from an XML reader.
pub enum XmlStep {
    Start(Seq<u8>),
    Empty(Seq<u8>),
    End(Seq<u8>),
    /// Text, unescaped, or `None` where unescaping failed.
    Text(Option<Seq<char>>),
    Eof,
    Other,
    /// The reader reported an error.
    Failed,
}

/// The step that a read result stands for.
pub open spec fn step_of(r: Result<XmlEvent, quick_xml::Error>) -> XmlStep {
    match r {
        Err(_) => XmlStep::Failed,
        Ok(XmlEvent::Start(n)) => XmlStep::Start(n@),
        Ok(XmlEvent::Empty(n)) => XmlStep::Empty(n@),
        Ok(XmlEvent::End(n)) => XmlStep::End(n@),
        Ok(XmlEvent::Text(t)) => XmlStep::Text(
            match t {
                Ok(s) => Some(s@),
                Err(_) => None,
            },
        ),
        Ok(XmlEvent::Eof) => XmlStep::Eof,
        Ok(XmlEvent::Other) => XmlStep::Other,
    }
}

/// A step after which the reader has nothing more to give.
pub open spec fn is_last_step(s: XmlStep) -> bool {
    s is Eof || s is Failed
}

/// The steps end with the end of the document or an error, and nowhere
/// earlier.
pub open spec fn well_ended(steps: Seq<XmlStep>) -> bool {
    &&& steps.len() > 0
    &&& is_last_step(steps.last())
    &&& forall|i: int| 0 <= i < steps.len() - 1 ==> !is_last_step(#[trigger] steps[i])
}

/// The reads that a reader still has to give: what the reader holds.
pub uninterp spec fn pending_steps(r: quick_xml::Reader<&[u8]>) -> Seq<XmlStep>;

/// The reads that `Reader::from_str` with `trim_text(true)` gives on
/// `input`, up to and including the end of the document or the first error.
pub uninterp spec fn xml_steps(input: Seq<char>) -> Seq<XmlStep>;

/// `Reader::from_str` with `trim_text(true)`: a reader that will give the
/// reads named by `xml_steps`. Each read consumes input or reports the end
/// or an error, so these reads end, with the end of the document or an error.
#[verifier::external_body]
pub(crate) fn xml_reader<'a>(input: &'a str) -> (r: Reader<&'a [u8]>)
    ensures
        pending_steps(r) == xml_steps(input@),
        well_ended(pending_steps(r)),
{
    let mut reader = Reader::from_str(input);
    reader.config_mut().trim_text(true);
    reader
}

/// `Reader::read_event_into`: gives the next pending read. Tag names are
/// handed out as their raw bytes and text events as their unescaped text
/// (`BytesText::unescape`); other events are not told apart.
#[verifier::external_body]
pub(crate) fn next_xml_event(r: &mut Reader<&[u8]>) -> (e: Result<XmlEvent, quick_xml::Error>)
    requires
        pending_steps(*old(r)).len() > 0,
    ensures
        step_of(e) == pending_steps(*old(r))[0],
        pending_steps(*final(r)) == pending_steps(*old(r)).drop_first(),
{
    let mut buf = Vec::new();
    match r.read_event_into(&mut buf) {
        Ok(Event::Start(e)) => Ok(XmlEvent::Start(e.name().as_ref().to_vec())),
        Ok(Event::Empty(e)) => Ok(XmlEvent::Empty(e.name().as_ref().to_vec())),
        Ok(Event::End(e)) => Ok(XmlEvent::End(e.name().as_ref().to_vec())),
        Ok(Event::Text(e)) => Ok(XmlEvent::Text(e.unescape().map(|t| t.to_string()))),
        Ok(Event::Eof) => Ok(XmlEvent::Eof),
        Ok(_) => Ok(XmlEvent::Other),
        Err(e) => Err(e),
    }
}

} // verus!
