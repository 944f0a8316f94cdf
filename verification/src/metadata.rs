//! The protocol version spoken between the policy and its evaluator.
use vstd::prelude::*;

verus! {

/// The version of the communication protocol used to exchange information
/// between the policy and the policy evaluator.  Policies provide the right
/// value through the `protocol_version` guest function.
#[derive(Debug, Clone, PartialEq, Eq)]
pub enum ProtocolVersion {
    /// An invalid version.
    Unknown,
    V1,
}

impl Default for ProtocolVersion {
    fn default() -> (r: ProtocolVersion)
        ensures
            r == ProtocolVersion::V1,
    {
        ProtocolVersion::V1
    }
}

/// The JSON text that each protocol version is exchanged as.
pub open spec fn protocol_version_json(v: ProtocolVersion) -> Seq<u8> {
    match v {
        ProtocolVersion::V1 => seq![34u8, 118u8, 49u8, 34u8],
        ProtocolVersion::Unknown => seq![
            34u8, 85u8, 110u8, 107u8, 110u8, 111u8, 119u8, 110u8, 34u8,
        ],
    }
}

impl ProtocolVersion {
    /// The numeral that names this version.
    pub fn version_string(&self) -> (r: String)
        ensures
            *self == ProtocolVersion::V1 ==> r@ == "1"@,
            *self == ProtocolVersion::Unknown ==> r@ == "0"@,
    {
        match self {
            ProtocolVersion::V1 => String::from_str("1"),
            ProtocolVersion::Unknown => String::from_str("0"),
        }
    }

    /// Reads a version from its JSON text: exactly the texts of
    /// [`protocol_version_json`] are accepted.
    pub fn from_json_bytes(bytes: &[u8]) -> (r: Result<ProtocolVersion, String>)
        ensures
            r matches Ok(v) ==> bytes@ == protocol_version_json(v),
            bytes@ == protocol_version_json(ProtocolVersion::V1) ==> r == Ok::<_, String>(
                ProtocolVersion::V1,
            ),
            bytes@ == protocol_version_json(ProtocolVersion::Unknown) ==> r == Ok::<_, String>(
                ProtocolVersion::Unknown,
            ),
    {
        if bytes.len() == 4 && bytes[0] == 34 && bytes[1] == 118 && bytes[2] == 49 && bytes[3]
            == 34 {
            proof {
                assert(bytes@ =~= protocol_version_json(ProtocolVersion::V1));
            }
            Ok(ProtocolVersion::V1)
        } else if bytes.len() == 9 && bytes[0] == 34 && bytes[1] == 85 && bytes[2] == 110
            && bytes[3] == 107 && bytes[4] == 110 && bytes[5] == 111 && bytes[6] == 119 && bytes[7]
            == 110 && bytes[8] == 34 {
            proof {
                assert(bytes@ =~= protocol_version_json(ProtocolVersion::Unknown));
            }
            Ok(ProtocolVersion::Unknown)
        } else {
            proof {
                assert(bytes@ != protocol_version_json(ProtocolVersion::V1));
                assert(bytes@ != protocol_version_json(ProtocolVersion::Unknown));
            }
            Err(String::from_str("cannot convert value to ProtocolVersion"))
        }
    }
}

} // verus!
