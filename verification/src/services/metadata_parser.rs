use vstd::prelude::*;
use vstd::string::*;

use crate::text::{decimal_digits, decimal_string, label_text, trimmed, utf8_lossy_spec};

verus! {

/// Toggle bit of a DLS segment header (bit 7): it flips for every new label.
pub open spec fn dls_toggle(command: u8) -> bool {
    (command >> 7u8) & 1u8 == 1u8
}

/// "Last segment" flag of a DLS segment header (bit 5).
pub open spec fn dls_last(command: u8) -> bool {
    (command >> 5u8) & 1u8 == 1u8
}

/// Parse Dynamic Label Segment (DLS) from PAD data
/// DLS provides scrolling text information (song title, artist, etc.)
pub struct DlsParser {
    buffer: Vec<u8>,
    label: String,
    charset: u8,
    toggle_bit: bool,
    segment_count: u8,
}

impl DlsParser {
    /// The bytes of the label being assembled.
    pub closed spec fn buffer_view(&self) -> Seq<u8> {
        self.buffer@
    }

    /// The last label reported.
    pub closed spec fn label_view(&self) -> Seq<char> {
        self.label@
    }

    pub closed spec fn charset_view(&self) -> u8 {
        self.charset
    }

    pub closed spec fn toggle_view(&self) -> bool {
        self.toggle_bit
    }

    /// Segments received for the label being assembled.
    pub closed spec fn segment_count_view(&self) -> u8 {
        self.segment_count
    }

    pub fn new() -> (p: Self)
        ensures
            p.buffer_view() == Seq::<u8>::empty(),
            p.label_view() == Seq::<char>::empty(),
            p.charset_view() == 0,
            !p.toggle_view(),
            p.segment_count_view() == 0,
    {
        Self { buffer: Vec::new(), label: String::new(), charset: 0, toggle_bit: false, segment_count: 0 }
    }

    /// Process a DLS data segment
    /// Returns Some(text) when a complete label has been assembled that is
    /// not empty and differs from the last one reported. A last segment
    /// completes the label and empties the buffer, so the same label sent
    /// again with the same toggle bit is not reported again.
    pub fn process_segment(&mut self, data: &[u8]) -> (r: Option<String>)
        requires
            data@.len() >= 2 && dls_toggle(data@[0]) == old(self).toggle_view() ==> old(
                self,
            ).segment_count_view() < u8::MAX,
            old(self).buffer_view().len() + data@.len() <= isize::MAX,
        ensures
            data@.len() < 2 ==> r is None && *final(self) == *old(self),
            data@.len() >= 2 ==> {
                let command = data@[0];
                let new_label = dls_toggle(command) != old(self).toggle_view();
                let buffer = if new_label {
                    data@.drop_first()
                } else {
                    old(self).buffer_view() + data@.drop_first()
                };
                let text = trimmed(utf8_lossy_spec(buffer));
                let reported = dls_last(command) && text.len() > 0 && text != old(self).label_view();
                &&& final(self).toggle_view() == dls_toggle(command)
                &&& !dls_last(command) ==> final(self).buffer_view() == buffer
                    && final(self).segment_count_view() == (if new_label {
                    0
                } else {
                    old(self).segment_count_view()
                }) + 1
                &&& dls_last(command) ==> final(self).buffer_view() == Seq::<u8>::empty()
                    && final(self).segment_count_view() == 0
                &&& final(self).charset_view() == old(self).charset_view()
                &&& reported ==> (r matches Some(l) && l@ == text && final(self).label_view() == text)
                &&& !reported ==> (r is None && final(self).label_view() == old(self).label_view())
            },
    {
        if data.len() < 2 {
            return None;
        }
        // DLS segment header
        let command = data[0];
        let toggle = (command >> 7) & 1 == 1;
        let last = (command >> 5) & 1 == 1;

        // Detect new label (toggle bit change)
        if toggle != self.toggle_bit {
            self.toggle_bit = toggle;
            self.buffer.clear();
            self.segment_count = 0;
        }
        // Append segment data
        let body = vstd::slice::slice_subrange(data, 1, data.len());
        let ghost before = self.buffer@;
        self.buffer.extend_from_slice(body);
        assert(self.buffer@ =~= before + data@.drop_first());
        self.segment_count = self.segment_count + 1;

        // If this is the last segment, assemble the label
        if last {
            let label = if self.charset == 0 || self.charset == 15 {
                label_text(self.buffer.as_slice())
            } else {
                // EBU character set - approximate with UTF-8
                label_text(self.buffer.as_slice())
            };
            // The label is complete: start afresh for its next transmission
            self.buffer.clear();
            self.segment_count = 0;
            if !label.as_str().is_empty() && label != self.label {
                self.label = label.clone();
                return Some(label);
            }
        }
        None
    }

    pub fn current_label(&self) -> (l: &str)
        ensures
            l@ == self.label_view(),
    {
        self.label.as_str()
    }
}

/// A big-endian 16-bit field.
pub open spec fn be_u16(hi: u8, lo: u8) -> u16 {
    ((hi as u16) << 8u16) | (lo as u16)
}

/// The 28-bit body size of a MOT header (bytes 4 to 7 of the segment).
pub open spec fn mot_body_size(b4: u8, b5: u8, b6: u8, b7: u8) -> u32 {
    ((b4 as u32) << 20u32) | ((b5 as u32) << 12u32) | ((b6 as u32) << 4u32) | ((b7 as u32) >> 4u32)
}

/// The MIME type a MOT header declares through its content type (6 bits of
/// byte 8) and content sub-type (the last bit of byte 8 and byte 9).
pub open spec fn mot_content_type(b8: u8, b9: u8) -> Seq<char> {
    let content_type = (b8 >> 1u8) & 0x3Fu8;
    let sub_type = (((b8 as u16) & 1u16) << 8u16) | (b9 as u16);
    if content_type == 2 {
        if sub_type == 0 {
            "image/gif"@
        } else if sub_type == 1 {
            "image/jpeg"@
        } else if sub_type == 2 {
            "image/bmp"@
        } else if sub_type == 3 {
            "image/png"@
        } else {
            "image/unknown-"@ + decimal_digits(sub_type as nat)
        }
    } else {
        "application/octet-stream"@
    }
}

/// Size of a MOT segment header: 12 bytes on segment 0, 4 on the others.
pub open spec fn mot_body_offset(segment_number: u16) -> int {
    if segment_number == 0 {
        12
    } else {
        4
    }
}

/// The MIME type of a MOT object, as `mot_content_type` states it.
fn content_type_string(b8: u8, b9: u8) -> (s: String)
    ensures
        s@ == mot_content_type(b8, b9),
{
    let content_type = (b8 >> 1) & 0x3F;
    let content_sub_type: u16 = ((b8 as u16 & 1) << 8) | b9 as u16;
    if content_type == 2 {
        if content_sub_type == 0 {
            String::from_str("image/gif")
        } else if content_sub_type == 1 {
            String::from_str("image/jpeg")
        } else if content_sub_type == 2 {
            String::from_str("image/bmp")
        } else if content_sub_type == 3 {
            String::from_str("image/png")
        } else {
            let mut t = String::from_str("image/unknown-");
            let digits = decimal_string(content_sub_type as u32);
            t.append(digits.as_str());
            t
        }
    } else {
        String::from_str("application/octet-stream")
    }
}

/// Parse Slideshow (SLS/MOT) data
/// SLS provides images associated with the current programme
pub struct SlsParser {
    buffer: Vec<u8>,
    expected_size: usize,
    content_type: String,
    transport_id: u16,
}

impl SlsParser {
    /// The body bytes of the object being assembled.
    pub closed spec fn buffer_view(&self) -> Seq<u8> {
        self.buffer@
    }

    /// The body size announced by the object's header (0: none yet).
    pub closed spec fn expected_size_view(&self) -> usize {
        self.expected_size
    }

    pub closed spec fn content_type_view(&self) -> Seq<char> {
        self.content_type@
    }

    pub closed spec fn transport_id_view(&self) -> u16 {
        self.transport_id
    }

    pub fn new() -> (p: Self)
        ensures
            p.buffer_view() == Seq::<u8>::empty(),
            p.expected_size_view() == 0,
            p.content_type_view() == Seq::<char>::empty(),
            p.transport_id_view() == 0,
    {
        Self { buffer: Vec::new(), expected_size: 0, content_type: String::new(), transport_id: 0 }
    }

    /// Process a MOT (Multimedia Object Transfer) segment
    /// Returns Some((content_type, data)) when a complete image is assembled
    pub fn process_segment(&mut self, data: &[u8]) -> (r: Option<(String, Vec<u8>)>)
        requires
            old(self).buffer_view().len() + data@.len() <= isize::MAX,
        ensures
            data@.len() < 4 ==> r is None && *final(self) == *old(self),
            data@.len() >= 4 ==> {
                let segment_number = be_u16(data@[0], data@[1]);
                let transport_id = be_u16(data@[2], data@[3]);
                let new_object = transport_id != old(self).transport_id_view();
                let buffer0 = if new_object {
                    Seq::<u8>::empty()
                } else {
                    old(self).buffer_view()
                };
                let expected0 = if new_object {
                    0usize
                } else {
                    old(self).expected_size_view()
                };
                let header = segment_number == 0 && data@.len() > 12;
                let expected = if header {
                    mot_body_size(data@[4], data@[5], data@[6], data@[7]) as usize
                } else {
                    expected0
                };
                let content_type = if header {
                    mot_content_type(data@[8], data@[9])
                } else {
                    old(self).content_type_view()
                };
                let offset = mot_body_offset(segment_number);
                let buffer = if offset < data@.len() {
                    buffer0 + data@.subrange(offset, data@.len() as int)
                } else {
                    buffer0
                };
                let complete = expected > 0 && buffer.len() >= expected;
                &&& final(self).transport_id_view() == transport_id
                &&& final(self).content_type_view() == content_type
                &&& complete ==> {
                    &&& r matches Some(object)
                    &&& object.0@ == content_type
                    &&& object.1@ == buffer.subrange(0, expected as int)
                    &&& final(self).buffer_view() == Seq::<u8>::empty()
                    &&& final(self).expected_size_view() == 0
                }
                &&& !complete ==> {
                    &&& r is None
                    &&& final(self).buffer_view() == buffer
                    &&& final(self).expected_size_view() == expected
                }
            },
    {
        if data.len() < 4 {
            return None;
        }
        // MOT header parsing
        let segment_number: u16 = ((data[0] as u16) << 8) | data[1] as u16;
        let transport_id: u16 = ((data[2] as u16) << 8) | data[3] as u16;

        // New object
        if transport_id != self.transport_id {
            self.transport_id = transport_id;
            self.buffer.clear();
            self.expected_size = 0;
        }
        if segment_number == 0 && data.len() > 12 {
            // Header segment - extract content type and size
            let body_size: u32 = ((data[4] as u32) << 20) | ((data[5] as u32) << 12) | ((
            data[6] as u32) << 4) | ((data[7] as u32) >> 4);
            self.expected_size = body_size as usize;
            self.content_type = content_type_string(data[8], data[9]);
        }
        // Append body data
        let body_offset: usize = if segment_number == 0 { 12 } else { 4 };
        if body_offset < data.len() {
            let body = vstd::slice::slice_subrange(data, body_offset, data.len());
            let ghost before = self.buffer@;
            self.buffer.extend_from_slice(body);
            assert(self.buffer@ =~= before + data@.subrange(body_offset as int, data@.len() as int));
        }
        // Check if complete
        if self.expected_size > 0 && self.buffer.len() >= self.expected_size {
            let image_data = vstd::slice::slice_to_vec(
                vstd::slice::slice_subrange(self.buffer.as_slice(), 0, self.expected_size),
            );
            let content_type = self.content_type.clone();
            self.buffer.clear();
            self.expected_size = 0;
            return Some((content_type, image_data));
        }
        None
    }
}

/// The simulated DLS text of a service.
pub open spec fn simulated_dls_text(service_id: u32) -> Seq<char> {
    match service_id {
        0x1001 | 0x4001 | 0x5001 | 0x6001 | 0x7001 => "triple j - Playing the hottest music"@,
        0x1002 | 0x4002 => "Double J - Music for grown-ups"@,
        0x1003 | 0x4005 => "ABC NEWS - Breaking news and analysis"@,
        0x1004 | 0x4004 | 0x5003 | 0x6003 | 0x7003 => "ABC Classic - Beautiful music, beautifully played"@,
        0x1005 => "ABC Kids Listen - Fun and safe for kids"@,
        0x1006 => "triple j Unearthed - Discovering new Australian music"@,
        0x2001 | 0x400B => "KIIS - Hit music station"@,
        0x2003 | 0x4008 | 0x5004 | 0x6006 | 0x7004 => "Nova - Entertainment and music"@,
        0x2005 | 0x400A => "Talk radio - News, sport, and opinion"@,
        _ => "DAB+ Digital Radio"@,
    }
}

/// Simulated DLS text for Australian stations (for development)
pub fn get_simulated_dls(service_id: u32) -> (text: String)
    ensures
        text@ == simulated_dls_text(service_id),
{
    match service_id {
        0x1001 | 0x4001 | 0x5001 | 0x6001 | 0x7001 => String::from_str("triple j - Playing the hottest music"),
        0x1002 | 0x4002 => String::from_str("Double J - Music for grown-ups"),
        0x1003 | 0x4005 => String::from_str("ABC NEWS - Breaking news and analysis"),
        0x1004 | 0x4004 | 0x5003 | 0x6003 | 0x7003 => String::from_str("ABC Classic - Beautiful music, beautifully played"),
        0x1005 => String::from_str("ABC Kids Listen - Fun and safe for kids"),
        0x1006 => String::from_str("triple j Unearthed - Discovering new Australian music"),
        0x2001 | 0x400B => String::from_str("KIIS - Hit music station"),
        0x2003 | 0x4008 | 0x5004 | 0x6006 | 0x7004 => String::from_str("Nova - Entertainment and music"),
        0x2005 | 0x400A => String::from_str("Talk radio - News, sport, and opinion"),
        _ => String::from_str("DAB+ Digital Radio"),
    }
}


/// The MOT body size is the 28-bit big-endian field of header bytes 4 to 7,
/// read up to the high nibble of byte 7: any size below 2^28 written into
/// those bytes reads back unchanged, and every reading fits in 28 bits.
pub proof fn lemma_mot_body_size_round_trip(size: u32, b4: u8, b5: u8, b6: u8, b7: u8)
    ensures
        size < 0x1000_0000u32 ==> mot_body_size(
            (size >> 20u32) as u8,
            (size >> 12u32) as u8,
            (size >> 4u32) as u8,
            ((size & 0xFu32) << 4u32) as u8,
        ) == size,
        mot_body_size(b4, b5, b6, b7) < 0x1000_0000u32,
{
    assert(size < 0x1000_0000u32 ==> ((((size >> 20u32) as u8) as u32) << 20u32) | ((((size >> 12u32)
        as u8) as u32) << 12u32) | ((((size >> 4u32) as u8) as u32) << 4u32) | (((((size & 0xFu32)
        << 4u32) as u8) as u32) >> 4u32) == size) by (bit_vector);
    assert(((b4 as u32) << 20u32) | ((b5 as u32) << 12u32) | ((b6 as u32) << 4u32) | ((b7 as u32)
        >> 4u32) < 0x1000_0000u32) by (bit_vector);
}

} // verus!
