//! Protocol versions recognised by the subscription codec.

use vstd::prelude::*;

verus! {

/// A protocol revision of the control plane. Only the two tagged revisions
/// are recognised; they differ in their subscription command code and in
/// the layout of the subscription payloads.
#[derive(Clone, Copy, PartialEq, Eq, Structural, Debug)]
pub enum DanteVersion {
    Dante4_4_1_3,
    Dante4_2_1_3,
}

/// The per-version command codes used by the codec.
pub struct DanteVersionCommands {
    pub command_subscription: [u8; 2],
}

impl DanteVersion {
    /// The two bytes placed in the command-code field of the envelope for a
    /// subscription command of this version.
    pub open spec fn spec_command_subscription(self) -> Seq<u8> {
        match self {
            DanteVersion::Dante4_4_1_3 => seq![0x34u8, 0x10u8],
            DanteVersion::Dante4_2_1_3 => seq![0x30u8, 0x10u8],
        }
    }

    /// Command codes for this protocol version.
    pub fn get_commands(&self) -> (r: DanteVersionCommands)
        ensures
            r.command_subscription@ == self.spec_command_subscription(),
    {
        match self {
            DanteVersion::Dante4_4_1_3 => DanteVersionCommands { command_subscription: [0x34, 0x10] },
            DanteVersion::Dante4_2_1_3 => DanteVersionCommands { command_subscription: [0x30, 0x10] },
        }
    }

    /// Parses a version tag. Exactly the strings `"4.4.1.3"` and `"4.2.1.3"`
    /// are recognised; every other input yields `None`.
    pub fn from_string(string: &str) -> (r: Option<Self>)
        ensures
            string@ == "4.4.1.3"@ ==> r == Some(DanteVersion::Dante4_4_1_3),
            string@ == "4.2.1.3"@ ==> r == Some(DanteVersion::Dante4_2_1_3),
            string@ != "4.4.1.3"@ && string@ != "4.2.1.3"@ ==> r is None,
    {
        proof {
            reveal_strlit("4.4.1.3");
            reveal_strlit("4.2.1.3");
            assert("4.4.1.3"@[2] != "4.2.1.3"@[2]);
        }
        let owned: String = string.to_owned();
        if owned == String::from_str("4.4.1.3") {
            Some(DanteVersion::Dante4_4_1_3)
        } else if owned == String::from_str("4.2.1.3") {
            Some(DanteVersion::Dante4_2_1_3)
        } else {
            None
        }
    }

    /// The version tag as a string, the inverse of `from_string`.
    pub fn version_string(&self) -> (r: String)
        ensures
            self == DanteVersion::Dante4_4_1_3 ==> r@ == "4.4.1.3"@,
            self == DanteVersion::Dante4_2_1_3 ==> r@ == "4.2.1.3"@,
    {
        match self {
            DanteVersion::Dante4_4_1_3 => String::from_str("4.4.1.3"),
            DanteVersion::Dante4_2_1_3 => String::from_str("4.2.1.3"),
        }
    }
}

} // verus!
