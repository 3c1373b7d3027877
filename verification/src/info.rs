//! The full message-info report: a plain-text dump of one message's
//! timestamps, sender, read receipts, state, encryption flags, content
//! metadata and remote location.

use vstd::prelude::*;

use crate::contact::{spec_name_n_addr, Contact};
use crate::constants::{Viewtype, DC_CONTACT_ID_INFO, DC_CONTACT_ID_SELF};
use crate::context::{contains_msg, Context, MdnRow, MsgRow};
use crate::error::Error;
use crate::message::{guess_msgtype_from_suffix, spec_guess_msgtype};
use crate::msgid::MsgId;
use crate::param::{spec_param_int, Param};
use crate::tools::{
    dc_truncate, i64_to_string, spec_i64_digits, spec_trim, spec_truncate, trim_ws, u64_to_string,
};

verus! {

/// The contact directory holds a row with the id.
pub open spec fn contains_contact(contacts: Seq<Contact>, id: u32) -> bool {
    exists|i: int| 0 <= i < contacts.len() && (#[trigger] contacts[i]).id == id
}

/// The contact row carrying the id (meaningful under [`contains_contact`]
/// and distinct contact ids).
pub open spec fn spec_contact_of(contacts: Seq<Contact>, id: u32) -> Contact {
    contacts[choose|i: int| 0 <= i < contacts.len() && (#[trigger] contacts[i]).id == id]
}

/// Name-and-address form of a directory contact.
pub open spec fn spec_contact_name(contacts: Seq<Contact>, id: u32) -> Seq<char> {
    spec_name_n_addr(spec_contact_of(contacts, id)@)
}

/// Resolves a contact to its name-and-address form; an unknown contact is
/// an error, as the directory is expected to know every referenced id.
fn contact_name(context: &Context, id: u32) -> (r: Result<String, Error>)
    requires
        context.wf(),
    ensures
        r is Ok <==> contains_contact(context.contacts@, id),
        r matches Ok(n) ==> n@ == spec_contact_name(context.contacts@, id),
        r is Err ==> r == Err::<String, Error>(Error::NotFound),
{
    match context.find_contact_index(id) {
        Some(i) => {
            proof {
                let w = choose|w: int|
                    0 <= w < context.contacts@.len() && (#[trigger] context.contacts@[w]).id
                        == id;
                assert(w == i as int);
            }
            Ok(context.contacts[i].get_name_n_addr())
        },
        None => Err(Error::NotFound),
    }
}

/// The "Sent: ... by ..." header, with the receive line for inbound
/// messages.
pub open spec fn spec_sent_section(row: MsgRow, contacts: Seq<Contact>) -> Seq<char> {
    let sent = "Sent: "@ + spec_i64_digits(
        if row.timestamp_sent != 0 {
            row.timestamp_sent as int
        } else {
            row.timestamp_sort as int
        },
    ) + " by "@ + spec_contact_name(contacts, row.from_id) + "\n"@;
    if row.from_id != DC_CONTACT_ID_SELF {
        sent + "Received: "@ + spec_i64_digits(
            if row.timestamp_rcvd != 0 {
                row.timestamp_rcvd as int
            } else {
                row.timestamp_sort as int
            },
        ) + "\n"@
    } else {
        sent
    }
}

/// One "Read: ... by ..." line per receipt of the message, in table
/// order.
pub open spec fn spec_receipt_lines(
    mdns: Seq<MdnRow>,
    contacts: Seq<Contact>,
    msg_id: MsgId,
) -> Seq<char>
    decreases mdns.len(),
{
    if mdns.len() == 0 {
        Seq::empty()
    } else {
        spec_receipt_lines(mdns.drop_last(), contacts, msg_id) + if mdns.last().msg_id == msg_id {
            "Read: "@ + spec_i64_digits(mdns.last().timestamp_sent as int) + " by "@
                + spec_contact_name(contacts, mdns.last().contact_id) + "\n"@
        } else {
            Seq::empty()
        }
    }
}

/// Every receipt of the message names a contact the directory knows.
pub open spec fn receipt_contacts_present(
    mdns: Seq<MdnRow>,
    contacts: Seq<Contact>,
    msg_id: MsgId,
) -> bool {
    forall|i: int|
        0 <= i < mdns.len() && (#[trigger] mdns[i]).msg_id == msg_id ==> contains_contact(
            contacts,
            mdns[i].contact_id,
        )
}

/// Renders the read-receipt lines of the message.
fn receipts_text(context: &Context, msg_id: MsgId) -> (r: Result<String, Error>)
    requires
        context.wf(),
    ensures
        r is Ok <==> receipt_contacts_present(context.mdns@, context.contacts@, msg_id),
        r matches Ok(t) ==> t@ == spec_receipt_lines(context.mdns@, context.contacts@, msg_id),
        r is Err ==> r == Err::<String, Error>(Error::NotFound),
{
    let n = context.mdns.len();
    let mut out = String::new();
    let mut i: usize = 0;
    while i < n
        invariant
            context.wf(),
            i <= n == context.mdns@.len(),
            out@ == spec_receipt_lines(
                context.mdns@.subrange(0, i as int),
                context.contacts@,
                msg_id,
            ),
            receipt_contacts_present(
                context.mdns@.subrange(0, i as int),
                context.contacts@,
                msg_id,
            ),
        decreases n - i,
    {
        let ghost pre = context.mdns@.subrange(0, i as int);
        proof {
            assert(context.mdns@.subrange(0, i + 1).drop_last() =~= pre);
            assert(context.mdns@.subrange(0, i + 1).last() == context.mdns@[i as int]);
        }
        if context.mdns[i].msg_id == msg_id {
            let name = match contact_name(context, context.mdns[i].contact_id) {
                Ok(name) => name,
                Err(e) => {
                    return Err(e);
                },
            };
            out.append("Read: ");
            let ts = i64_to_string(context.mdns[i].timestamp_sent);
            out.append(ts.as_str());
            out.append(" by ");
            out.append(name.as_str());
            out.append("\n");
            proof {
                assert(out@ =~= spec_receipt_lines(
                    context.mdns@.subrange(0, i + 1),
                    context.contacts@,
                    msg_id,
                ));
            }
        }
        proof {
            assert forall|j: int|
                0 <= j < i + 1 && (#[trigger] context.mdns@.subrange(0, i + 1)[j]).msg_id
                    == msg_id implies contains_contact(
                context.contacts@,
                context.mdns@.subrange(0, i + 1)[j].contact_id,
            ) by {
                if j < i {
                    assert(pre[j] == context.mdns@.subrange(0, i + 1)[j]);
                }
            }
        }
        i += 1;
    }
    proof {
        assert(context.mdns@.subrange(0, n as int) =~= context.mdns@);
    }
    Ok(out)
}

/// The "State: ..." line with the location and encryption markers, and
/// the error text stored in the parameter bag.
pub open spec fn spec_state_section(row: MsgRow) -> Seq<char> {
    let e2ee_errors = spec_param_int(row.param@, Param::ErroneousE2ee).unwrap_or(0);
    let padlock = spec_param_int(row.param@, Param::GuaranteeE2ee).unwrap_or(0);
    "State: "@ + row.state.spec_display() + (if row.location_id != 0 {
        ", Location sent"@
    } else {
        Seq::empty()
    }) + (if e2ee_errors != 0 {
        if e2ee_errors & 2 != 0 {
            ", Encrypted, no valid signature"@
        } else {
            Seq::empty()
        }
    } else if padlock != 0 {
        ", Encrypted"@
    } else {
        Seq::empty()
    }) + "\n"@ + (if row.param@.contains_key(Param::Error) {
        "Error: "@ + row.param@[Param::Error]
    } else {
        Seq::empty()
    })
}

/// The "File: ..." line for an attached file, with the size the blob
/// store reported.
pub open spec fn spec_file_section(row: MsgRow, filebytes: u64) -> Seq<char> {
    if row.param@.contains_key(Param::File) {
        "\nFile: "@ + row.param@[Param::File] + ", "@ + spec_u64_digits_of(filebytes)
            + " bytes\n"@
    } else {
        Seq::empty()
    }
}

/// Decimal digits of an unsigned number (alias keeping section specs
/// readable).
pub open spec fn spec_u64_digits_of(n: u64) -> Seq<char> {
    crate::tools::spec_u64_digits(n as nat)
}

/// Mime type shown for the message: the stored or guessed one, empty when
/// the message has neither mime type nor file.
pub open spec fn spec_filemime_text(row: MsgRow) -> Seq<char> {
    if row.param@.contains_key(Param::MimeType) {
        row.param@[Param::MimeType]
    } else if row.param@.contains_key(Param::File) {
        match spec_guess_msgtype(row.param@[Param::File]) {
            Some(q) => q.1,
            None => "application/octet-stream"@,
        }
    } else {
        Seq::empty()
    }
}

/// The "Type: ..." and "Mimetype: ..." lines for non-text content.
pub open spec fn spec_type_section(row: MsgRow) -> Seq<char> {
    if row.viewtype != Viewtype::Text {
        "Type: "@ + row.viewtype.spec_display() + "\n"@ + "Mimetype: "@ + spec_filemime_text(row)
            + "\n"@
    } else {
        Seq::empty()
    }
}

/// The dimension and duration lines for media content.
pub open spec fn spec_media_section(row: MsgRow) -> Seq<char> {
    let w = spec_param_int(row.param@, Param::Width).unwrap_or(0);
    let h = spec_param_int(row.param@, Param::Height).unwrap_or(0);
    let d = spec_param_int(row.param@, Param::Duration).unwrap_or(0);
    (if w != 0 || h != 0 {
        "Dimension: "@ + spec_i64_digits(w as int) + " x "@ + spec_i64_digits(h as int) + "\n"@
    } else {
        Seq::empty()
    }) + (if d != 0 {
        "Duration: "@ + spec_i64_digits(d as int) + " ms\n"@
    } else {
        Seq::empty()
    })
}

/// The raw text, correlation string and remote location trailer.
pub open spec fn spec_trailer_section(row: MsgRow) -> Seq<char> {
    let rawtxt = spec_truncate(spec_trim(row.txt_raw@), 100000);
    (if rawtxt.len() > 0 {
        "\n"@ + rawtxt + "\n"@
    } else {
        Seq::empty()
    }) + (if row.rfc724_mid@.len() > 0 {
        "\nMessage-ID: "@ + row.rfc724_mid@
    } else {
        Seq::empty()
    }) + (match row.server_folder {
        Some(f) => if f@.len() > 0 {
            "\nLast seen as: "@ + f@ + "/"@ + spec_u64_digits_of(row.server_uid as u64)
        } else {
            Seq::empty()
        },
        None => Seq::empty(),
    })
}

/// The whole message-info report of a stored row.
pub open spec fn spec_msg_info(
    row: MsgRow,
    mdns: Seq<MdnRow>,
    contacts: Seq<Contact>,
    filebytes: u64,
) -> Seq<char> {
    let head = spec_sent_section(row, contacts);
    if row.from_id == DC_CONTACT_ID_INFO || row.to_id == DC_CONTACT_ID_INFO {
        head
    } else {
        head + spec_receipt_lines(mdns, contacts, row.id) + spec_state_section(row)
            + spec_file_section(row, filebytes) + spec_type_section(row) + spec_media_section(row)
            + spec_trailer_section(row)
    }
}

/// Renders the "State: ..." line with the markers and the stored error.
fn state_text(row: &MsgRow) -> (r: String)
    requires
        row.param.wf(),
    ensures
        r@ == spec_state_section(*row),
{
    let mut ret = String::new();
    ret.append("State: ");
    let state_label = row.state.display_string();
    ret.append(state_label.as_str());
    if row.location_id != 0 {
        ret.append(", Location sent");
    }
    let e2ee_errors = row.param.get_int(Param::ErroneousE2ee).unwrap_or(0);
    if e2ee_errors != 0 {
        if e2ee_errors & 2 != 0 {
            ret.append(", Encrypted, no valid signature");
        }
    } else if row.param.get_int(Param::GuaranteeE2ee).unwrap_or(0) != 0 {
        ret.append(", Encrypted");
    }
    ret.append("\n");
    match row.param.get(Param::Error) {
        Some(err) => {
            ret.append("Error: ");
            ret.append(err.as_str());
        },
        None => {},
    }
    proof {
        assert(ret@ =~= spec_state_section(*row));
    }
    ret
}

/// Renders the "File: ..." line.
fn file_text(row: &MsgRow, filebytes: u64) -> (r: String)
    requires
        row.param.wf(),
    ensures
        r@ == spec_file_section(*row, filebytes),
{
    let mut ret = String::new();
    match row.param.get(Param::File) {
        Some(path) => {
            ret.append("\nFile: ");
            ret.append(path.as_str());
            ret.append(", ");
            let size = u64_to_string(filebytes);
            ret.append(size.as_str());
            ret.append(" bytes\n");
        },
        None => {},
    }
    proof {
        assert(ret@ =~= spec_file_section(*row, filebytes));
    }
    ret
}

/// Renders the "Type: ..." and "Mimetype: ..." lines.
fn type_text(row: &MsgRow) -> (r: String)
    requires
        row.param.wf(),
    ensures
        r@ == spec_type_section(*row),
{
    let mut ret = String::new();
    if row.viewtype != Viewtype::Text {
        ret.append("Type: ");
        let vt = row.viewtype.display_string();
        ret.append(vt.as_str());
        ret.append("\n");
        ret.append("Mimetype: ");
        let mime: String = match row.param.get(Param::MimeType) {
            Some(m) => m,
            None => match row.param.get(Param::File) {
                Some(file) => match guess_msgtype_from_suffix(file.as_str()) {
                    Some(p) => p.1,
                    None => String::from_str("application/octet-stream"),
                },
                None => String::new(),
            },
        };
        ret.append(mime.as_str());
        ret.append("\n");
    }
    proof {
        assert(ret@ =~= spec_type_section(*row));
    }
    ret
}

/// Renders the dimension and duration lines.
fn media_text(row: &MsgRow) -> (r: String)
    requires
        row.param.wf(),
    ensures
        r@ == spec_media_section(*row),
{
    let mut ret = String::new();
    let w = row.param.get_int(Param::Width).unwrap_or(0);
    let h = row.param.get_int(Param::Height).unwrap_or(0);
    if w != 0 || h != 0 {
        ret.append("Dimension: ");
        let wt = i64_to_string(w as i64);
        ret.append(wt.as_str());
        ret.append(" x ");
        let ht = i64_to_string(h as i64);
        ret.append(ht.as_str());
        ret.append("\n");
    }
    let duration = row.param.get_int(Param::Duration).unwrap_or(0);
    if duration != 0 {
        ret.append("Duration: ");
        let dt = i64_to_string(duration as i64);
        ret.append(dt.as_str());
        ret.append(" ms\n");
    }
    proof {
        assert(ret@ =~= spec_media_section(*row));
    }
    ret
}

/// Renders the raw-text, correlation-string and remote-location trailer.
fn trailer_text(row: &MsgRow) -> (r: String)
    ensures
        r@ == spec_trailer_section(*row),
{
    let mut ret = String::new();
    let trimmed = trim_ws(row.txt_raw.as_str());
    let rawtxt = dc_truncate(trimmed.as_str(), 100000);
    if !rawtxt.as_str().is_empty() {
        ret.append("\n");
        ret.append(rawtxt.as_str());
        ret.append("\n");
    }
    if !row.rfc724_mid.as_str().is_empty() {
        ret.append("\nMessage-ID: ");
        ret.append(row.rfc724_mid.as_str());
    }
    match &row.server_folder {
        Some(folder) => {
            if !folder.as_str().is_empty() {
                ret.append("\nLast seen as: ");
                ret.append(folder.as_str());
                ret.append("/");
                let uid = u64_to_string(row.server_uid as u64);
                ret.append(uid.as_str());
            }
        },
        None => {},
    }
    proof {
        assert(ret@ =~= spec_trailer_section(*row));
    }
    ret
}

/// Renders the "Sent: ..." header with the receive line for inbound
/// messages.
fn sent_text(context: &Context, row: &MsgRow) -> (r: Result<String, Error>)
    requires
        context.wf(),
    ensures
        r is Ok <==> contains_contact(context.contacts@, row.from_id),
        r matches Ok(t) ==> t@ == spec_sent_section(*row, context.contacts@),
        r is Err ==> r == Err::<String, Error>(Error::NotFound),
{
    let mut ret = String::new();
    ret.append("Sent: ");
    let fts = i64_to_string(
        if row.timestamp_sent != 0 {
            row.timestamp_sent
        } else {
            row.timestamp_sort
        },
    );
    ret.append(fts.as_str());
    ret.append(" by ");
    let name = match contact_name(context, row.from_id) {
        Ok(name) => name,
        Err(e) => {
            return Err(e);
        },
    };
    ret.append(name.as_str());
    ret.append("\n");
    if row.from_id != DC_CONTACT_ID_SELF {
        ret.append("Received: ");
        let rts = i64_to_string(
            if row.timestamp_rcvd != 0 {
                row.timestamp_rcvd
            } else {
                row.timestamp_sort
            },
        );
        ret.append(rts.as_str());
        ret.append("\n");
    }
    proof {
        assert(ret@ =~= spec_sent_section(*row, context.contacts@));
    }
    Ok(ret)
}

/// Every directory read the report needs succeeds: the messages table
/// holds the row, its sender is in the contact directory, and — unless the
/// message is device-internal, for which only the header is rendered —
/// so is every contact a receipt of the message names.
pub open spec fn msg_info_available(
    msgs: Seq<MsgRow>,
    mdns: Seq<MdnRow>,
    contacts: Seq<Contact>,
    msg_id: MsgId,
) -> bool {
    exists|i: int|
        0 <= i < msgs.len() && (#[trigger] msgs[i]).id == msg_id && contains_contact(
            contacts,
            msgs[i].from_id,
        ) && (msgs[i].from_id == DC_CONTACT_ID_INFO || msgs[i].to_id == DC_CONTACT_ID_INFO
            || receipt_contacts_present(mdns, contacts, msg_id))
}

/// Renders the full plain-text report of a message: timestamps and
/// sender, receive time for inbound mail, the read receipts recorded so
/// far, state, encryption and location markers, content metadata, the raw
/// text, the correlation string and the remote location.  Device-internal
/// messages show only the header.  `filebytes` is the size of the
/// attached file as the blob store reports it, shown only when a file is
/// attached.
///
/// The report is returned exactly when the id is real and every directory
/// read it needs succeeds; a reserved id is rejected, and a missing row
/// or contact propagates as `NotFound`.
pub fn get_msg_info(context: &Context, msg_id: MsgId, filebytes: u64) -> (r: Result<String, Error>)
    requires
        context.wf(),
    ensures
        msg_id.spec_is_special() ==> r == Err::<String, Error>(Error::InvalidIdentity),
        !msg_id.spec_is_special() && !contains_msg(context.msgs@, msg_id) ==> r == Err::<
            String,
            Error,
        >(Error::NotFound),
        !msg_id.spec_is_special() ==> (r is Ok <==> msg_info_available(
            context.msgs@,
            context.mdns@,
            context.contacts@,
            msg_id,
        )),
        !msg_id.spec_is_special() && contains_msg(context.msgs@, msg_id) && !msg_info_available(
            context.msgs@,
            context.mdns@,
            context.contacts@,
            msg_id,
        ) ==> r == Err::<String, Error>(Error::NotFound),
        r matches Ok(t) ==> exists|i: int|
            0 <= i < context.msgs@.len() && (#[trigger] context.msgs@[i]).id == msg_id && t@
                == spec_msg_info(context.msgs@[i], context.mdns@, context.contacts@, filebytes),
{
    if msg_id.is_special() {
        return Err(Error::InvalidIdentity);
    }
    let i = match context.find_msg_index(msg_id) {
        Some(i) => i,
        None => {
            proof {
                assert(!msg_info_available(
                    context.msgs@,
                    context.mdns@,
                    context.contacts@,
                    msg_id,
                ));
            }
            return Err(Error::NotFound);
        },
    };
    let row = &context.msgs[i];
    proof {
        assert(context.msgs@[i as int].param.wf());
        // the row of the id is unique, so availability stands or falls
        // with this row
        assert(forall|j: int|
            0 <= j < context.msgs@.len() && (#[trigger] context.msgs@[j]).id == msg_id ==> j
                == i as int);
    }
    let mut ret = match sent_text(context, row) {
        Ok(t) => t,
        Err(e) => {
            proof {
                assert(!msg_info_available(
                    context.msgs@,
                    context.mdns@,
                    context.contacts@,
                    msg_id,
                ));
            }
            return Err(e);
        },
    };
    if row.from_id == DC_CONTACT_ID_INFO || row.to_id == DC_CONTACT_ID_INFO {
        // device-internal message, no further details needed
        proof {
            assert(msg_info_available(context.msgs@, context.mdns@, context.contacts@, msg_id));
        }
        return Ok(ret);
    }
    let receipts = match receipts_text(context, msg_id) {
        Ok(t) => t,
        Err(e) => {
            proof {
                assert(!msg_info_available(
                    context.msgs@,
                    context.mdns@,
                    context.contacts@,
                    msg_id,
                ));
            }
            return Err(e);
        },
    };
    ret.append(receipts.as_str());
    let state_part = state_text(row);
    ret.append(state_part.as_str());
    let file_part = file_text(row, filebytes);
    ret.append(file_part.as_str());
    let type_part = type_text(row);
    ret.append(type_part.as_str());
    let media_part = media_text(row);
    ret.append(media_part.as_str());
    let trailer_part = trailer_text(row);
    ret.append(trailer_part.as_str());
    proof {
        assert(ret@ =~= spec_msg_info(
            context.msgs@[i as int],
            context.mdns@,
            context.contacts@,
            filebytes,
        ));
        assert(msg_info_available(context.msgs@, context.mdns@, context.contacts@, msg_id));
    }
    Ok(ret)
}

} // verus!
