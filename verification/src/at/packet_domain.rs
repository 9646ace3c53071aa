//! The packet data context: which access point the modem dials.

use crate::at::{at_request, AtCommandRequest, AtCommandRequestView, AtError, DEFAULT_TIMEOUT_MS};
use crate::bounded::AT_BUFFER_SIZE;
use crate::text::{decimal, push_bytes, push_decimal};
use vstd::prelude::*;
use vstd::string::StringSliceAdditionalSpecFns;

verus! {

/// The number of a packet data context.
#[derive(Debug, Clone, Copy, PartialEq, Eq)]
pub struct ContextId(pub u8);

/// The definition of a packet data context: its number, its protocol and
/// the name of the access point.
pub struct SetPDPContextDefinition<'a> {
    pub cid: ContextId,
    pub pdp_type: &'a [u8],
    pub apn: &'a [u8],
}

/// The text of the command that defines a context:
/// `AT+CGDCONT=<cid>,"<pdp_type>","<apn>"`.
pub open spec fn context_definition_command(cid: u8, pdp_type: Seq<u8>, apn: Seq<u8>) -> Seq<u8> {
    "AT+CGDCONT=".spec_bytes() + decimal(cid as nat) + ",\"".spec_bytes() + pdp_type
        + "\",\"".spec_bytes() + apn + "\"".spec_bytes()
}

/// The text of the command that sets the access point of context 1 for
/// IP traffic: `AT+CGDCONT=1,"IP","<apn>"`.
pub open spec fn set_apn_command(apn: Seq<u8>) -> Seq<u8> {
    context_definition_command(1, "IP".spec_bytes(), apn)
}

impl<'a> SetPDPContextDefinition<'a> {
    /// The command that defines the context. Fails with a format error
    /// where the text does not fit its buffer.
    pub fn request(&self) -> (r: Result<AtCommandRequest, AtError>)
        ensures
            r.is_ok() == (context_definition_command(self.cid.0, self.pdp_type@, self.apn@).len()
                <= AT_BUFFER_SIZE),
            r matches Ok(request) ==> request@ == (AtCommandRequestView {
                command: context_definition_command(self.cid.0, self.pdp_type@, self.apn@),
                timeout_ms: DEFAULT_TIMEOUT_MS,
                urc_prefix: None,
            }),
            r matches Err(e) ==> e == AtError::FormatError,
    {
        let mut command: Vec<u8> = Vec::new();
        push_bytes(&mut command, "AT+CGDCONT=".as_bytes());
        push_decimal(&mut command, self.cid.0 as u64);
        push_bytes(&mut command, ",\"".as_bytes());
        push_bytes(&mut command, self.pdp_type);
        push_bytes(&mut command, "\",\"".as_bytes());
        push_bytes(&mut command, self.apn);
        push_bytes(&mut command, "\"".as_bytes());
        assert(command@ =~= context_definition_command(self.cid.0, self.pdp_type@, self.apn@));
        at_request(command.as_slice())
    }
}

/// The command that sets the access point name. Fails with a format error
/// where the text does not fit its buffer.
pub fn set_apn(apn: &[u8]) -> (r: Result<AtCommandRequest, AtError>)
    ensures
        r.is_ok() == (set_apn_command(apn@).len() <= AT_BUFFER_SIZE),
        r matches Ok(request) ==> request@ == (AtCommandRequestView {
            command: set_apn_command(apn@),
            timeout_ms: DEFAULT_TIMEOUT_MS,
            urc_prefix: None,
        }),
        r matches Err(e) ==> e == AtError::FormatError,
{
    let definition = SetPDPContextDefinition { cid: ContextId(1), pdp_type: "IP".as_bytes(), apn };
    definition.request()
}

} // verus!
