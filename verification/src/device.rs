//! The NetMD devices this library supports, and device selection.

use vstd::prelude::*;
use crate::error::NetMDError;

verus! {

/// Sony USB vendor ID.
pub const SONY_VENDOR_ID: u16 = 0x054c;

/// Sharp USB vendor ID; Sharp devices write disc titles differently.
pub const SHARP_VENDOR_ID: u16 = 0x04dd;

/// Capabilities of a device model.
#[derive(Debug, Clone, Copy, PartialEq, Eq, Structural)]
pub struct DeviceFlags {
    pub native_mono_upload: bool,
    pub native_lp_encoding: bool,
}

impl DeviceFlags {
    /// No special capability.
    pub fn empty() -> (f: DeviceFlags)
        ensures
            f == (DeviceFlags { native_mono_upload: false, native_lp_encoding: false }),
    {
        DeviceFlags { native_mono_upload: false, native_lp_encoding: false }
    }

    /// Native mono upload only.
    pub fn native_mono_upload() -> (f: DeviceFlags)
        ensures
            f == (DeviceFlags { native_mono_upload: true, native_lp_encoding: false }),
    {
        DeviceFlags { native_mono_upload: true, native_lp_encoding: false }
    }
}

/// A supported device model.
#[derive(Debug, Clone, Copy)]
pub struct DeviceDefinition {
    pub vendor_id: u16,
    pub product_id: u16,
    pub name: &'static str,
    pub flags: DeviceFlags,
}

impl DeviceDefinition {
    /// The model as plain values: vendor, product, name, flags.
    pub open spec fn view(&self) -> (u16, u16, Seq<char>, DeviceFlags) {
        (self.vendor_id, self.product_id, self.name@, self.flags)
    }
}

/// The supported device models, in table order.
pub open spec fn device_table() -> Seq<(u16, u16, Seq<char>, DeviceFlags)> {
    seq![
        (0x04ddu16, 0x7202u16, "Sharp IM-MT899H"@, DeviceFlags { native_mono_upload: false, native_lp_encoding: false }),
        (0x04ddu16, 0x9013u16, "Sharp IM-DR400"@, DeviceFlags { native_mono_upload: false, native_lp_encoding: false }),
        (0x04ddu16, 0x9014u16, "Sharp IM-DR80"@, DeviceFlags { native_mono_upload: true, native_lp_encoding: false }),
        (0x054cu16, 0x0034u16, "Sony PCLK-XX"@, DeviceFlags { native_mono_upload: false, native_lp_encoding: false }),
        (0x054cu16, 0x0036u16, "Sony"@, DeviceFlags { native_mono_upload: false, native_lp_encoding: false }),
        (0x054cu16, 0x0075u16, "Sony MZ-N1"@, DeviceFlags { native_mono_upload: false, native_lp_encoding: false }),
        (0x054cu16, 0x007cu16, "Sony"@, DeviceFlags { native_mono_upload: false, native_lp_encoding: false }),
        (0x054cu16, 0x0080u16, "Sony LAM-1"@, DeviceFlags { native_mono_upload: false, native_lp_encoding: false }),
        (0x054cu16, 0x0081u16, "Sony MDS-JB980/MDS-NT1/MDS-JE780"@, DeviceFlags { native_mono_upload: true, native_lp_encoding: false }),
        (0x054cu16, 0x0084u16, "Sony MZ-N505"@, DeviceFlags { native_mono_upload: false, native_lp_encoding: false }),
        (0x054cu16, 0x0085u16, "Sony MZ-S1"@, DeviceFlags { native_mono_upload: false, native_lp_encoding: false }),
        (0x054cu16, 0x0086u16, "Sony MZ-N707"@, DeviceFlags { native_mono_upload: false, native_lp_encoding: false }),
        (0x054cu16, 0x008eu16, "Sony CMT-C7NT"@, DeviceFlags { native_mono_upload: false, native_lp_encoding: false }),
        (0x054cu16, 0x0097u16, "Sony PCGA-MDN1"@, DeviceFlags { native_mono_upload: false, native_lp_encoding: false }),
        (0x054cu16, 0x00adu16, "Sony CMT-L7HD"@, DeviceFlags { native_mono_upload: false, native_lp_encoding: false }),
        (0x054cu16, 0x00c6u16, "Sony MZ-N10"@, DeviceFlags { native_mono_upload: false, native_lp_encoding: false }),
        (0x054cu16, 0x00c7u16, "Sony MZ-N910"@, DeviceFlags { native_mono_upload: false, native_lp_encoding: false }),
        (0x054cu16, 0x00c8u16, "Sony MZ-N710/NF810"@, DeviceFlags { native_mono_upload: false, native_lp_encoding: false }),
        (0x054cu16, 0x00c9u16, "Sony MZ-N510/N610"@, DeviceFlags { native_mono_upload: false, native_lp_encoding: false }),
        (0x054cu16, 0x00cau16, "Sony MZ-NE410/NF520D"@, DeviceFlags { native_mono_upload: false, native_lp_encoding: false }),
        (0x054cu16, 0x00e7u16, "Sony CMT-M333NT/M373NT"@, DeviceFlags { native_mono_upload: false, native_lp_encoding: false }),
        (0x054cu16, 0x00ebu16, "Sony MZ-NE810/NE910"@, DeviceFlags { native_mono_upload: false, native_lp_encoding: false }),
        (0x054cu16, 0x0101u16, "Sony LAM"@, DeviceFlags { native_mono_upload: false, native_lp_encoding: false }),
        (0x054cu16, 0x0113u16, "Aiwa AM-NX1"@, DeviceFlags { native_mono_upload: false, native_lp_encoding: false }),
        (0x054cu16, 0x013fu16, "Sony MDS-S500"@, DeviceFlags { native_mono_upload: false, native_lp_encoding: false }),
        (0x054cu16, 0x014cu16, "Aiwa AM-NX9"@, DeviceFlags { native_mono_upload: false, native_lp_encoding: false }),
        (0x054cu16, 0x017eu16, "Sony MZ-NH1"@, DeviceFlags { native_mono_upload: false, native_lp_encoding: false }),
        (0x054cu16, 0x0180u16, "Sony MZ-NH3D"@, DeviceFlags { native_mono_upload: false, native_lp_encoding: false }),
        (0x054cu16, 0x0182u16, "Sony MZ-NH900"@, DeviceFlags { native_mono_upload: false, native_lp_encoding: false }),
        (0x054cu16, 0x0184u16, "Sony MZ-NH700/NH800"@, DeviceFlags { native_mono_upload: false, native_lp_encoding: false }),
        (0x054cu16, 0x0186u16, "Sony MZ-NH600"@, DeviceFlags { native_mono_upload: false, native_lp_encoding: false }),
        (0x054cu16, 0x0187u16, "Sony MZ-NH600D"@, DeviceFlags { native_mono_upload: false, native_lp_encoding: false }),
        (0x054cu16, 0x0188u16, "Sony MZ-N920"@, DeviceFlags { native_mono_upload: false, native_lp_encoding: false }),
        (0x054cu16, 0x018au16, "Sony LAM-3"@, DeviceFlags { native_mono_upload: false, native_lp_encoding: false }),
        (0x054cu16, 0x01e9u16, "Sony MZ-DH10P"@, DeviceFlags { native_mono_upload: false, native_lp_encoding: false }),
        (0x054cu16, 0x0219u16, "Sony MZ-RH10"@, DeviceFlags { native_mono_upload: false, native_lp_encoding: false }),
        (0x054cu16, 0x021bu16, "Sony MZ-RH710/MZ-RH910"@, DeviceFlags { native_mono_upload: false, native_lp_encoding: false }),
        (0x054cu16, 0x021du16, "Sony CMT-AH10"@, DeviceFlags { native_mono_upload: false, native_lp_encoding: false }),
        (0x054cu16, 0x022cu16, "Sony CMT-AH10"@, DeviceFlags { native_mono_upload: false, native_lp_encoding: false }),
        (0x054cu16, 0x023cu16, "Sony DS-HMD1"@, DeviceFlags { native_mono_upload: false, native_lp_encoding: false }),
        (0x054cu16, 0x0286u16, "Sony MZ-RH1"@, DeviceFlags { native_mono_upload: false, native_lp_encoding: false }),
        (0x054cu16, 0x011au16, "Sony CMT-SE7"@, DeviceFlags { native_mono_upload: false, native_lp_encoding: false }),
        (0x054cu16, 0x0148u16, "Sony MDS-A1"@, DeviceFlags { native_mono_upload: false, native_lp_encoding: false }),
        (0x0b28u16, 0x1004u16, "Kenwood MDX-J9"@, DeviceFlags { native_mono_upload: false, native_lp_encoding: false }),
        (0x04dau16, 0x23b3u16, "Panasonic SJ-MR250"@, DeviceFlags { native_mono_upload: true, native_lp_encoding: false }),
        (0x04dau16, 0x23b6u16, "Panasonic SJ-MR270"@, DeviceFlags { native_mono_upload: true, native_lp_encoding: false }),
        (0x0411u16, 0x0083u16, "Buffalo MD-HUSB"@, DeviceFlags { native_mono_upload: false, native_lp_encoding: false })
    ]
}

/// The NetMD models that the library knows, by USB vendor and product id
/// and model name, in the order in which they are matched.
pub open spec fn netmd_models() -> Seq<(u16, u16, Seq<char>)> {
    seq![
        (0x04ddu16, 0x7202u16, "Sharp IM-MT899H"@),
        (0x04ddu16, 0x9013u16, "Sharp IM-DR400"@),
        (0x04ddu16, 0x9014u16, "Sharp IM-DR80"@),
        (0x054cu16, 0x0034u16, "Sony PCLK-XX"@),
        (0x054cu16, 0x0036u16, "Sony"@),
        (0x054cu16, 0x0075u16, "Sony MZ-N1"@),
        (0x054cu16, 0x007cu16, "Sony"@),
        (0x054cu16, 0x0080u16, "Sony LAM-1"@),
        (0x054cu16, 0x0081u16, "Sony MDS-JB980/MDS-NT1/MDS-JE780"@),
        (0x054cu16, 0x0084u16, "Sony MZ-N505"@),
        (0x054cu16, 0x0085u16, "Sony MZ-S1"@),
        (0x054cu16, 0x0086u16, "Sony MZ-N707"@),
        (0x054cu16, 0x008eu16, "Sony CMT-C7NT"@),
        (0x054cu16, 0x0097u16, "Sony PCGA-MDN1"@),
        (0x054cu16, 0x00adu16, "Sony CMT-L7HD"@),
        (0x054cu16, 0x00c6u16, "Sony MZ-N10"@),
        (0x054cu16, 0x00c7u16, "Sony MZ-N910"@),
        (0x054cu16, 0x00c8u16, "Sony MZ-N710/NF810"@),
        (0x054cu16, 0x00c9u16, "Sony MZ-N510/N610"@),
        (0x054cu16, 0x00cau16, "Sony MZ-NE410/NF520D"@),
        (0x054cu16, 0x00e7u16, "Sony CMT-M333NT/M373NT"@),
        (0x054cu16, 0x00ebu16, "Sony MZ-NE810/NE910"@),
        (0x054cu16, 0x0101u16, "Sony LAM"@),
        (0x054cu16, 0x0113u16, "Aiwa AM-NX1"@),
        (0x054cu16, 0x013fu16, "Sony MDS-S500"@),
        (0x054cu16, 0x014cu16, "Aiwa AM-NX9"@),
        (0x054cu16, 0x017eu16, "Sony MZ-NH1"@),
        (0x054cu16, 0x0180u16, "Sony MZ-NH3D"@),
        (0x054cu16, 0x0182u16, "Sony MZ-NH900"@),
        (0x054cu16, 0x0184u16, "Sony MZ-NH700/NH800"@),
        (0x054cu16, 0x0186u16, "Sony MZ-NH600"@),
        (0x054cu16, 0x0187u16, "Sony MZ-NH600D"@),
        (0x054cu16, 0x0188u16, "Sony MZ-N920"@),
        (0x054cu16, 0x018au16, "Sony LAM-3"@),
        (0x054cu16, 0x01e9u16, "Sony MZ-DH10P"@),
        (0x054cu16, 0x0219u16, "Sony MZ-RH10"@),
        (0x054cu16, 0x021bu16, "Sony MZ-RH710/MZ-RH910"@),
        (0x054cu16, 0x021du16, "Sony CMT-AH10"@),
        (0x054cu16, 0x022cu16, "Sony CMT-AH10"@),
        (0x054cu16, 0x023cu16, "Sony DS-HMD1"@),
        (0x054cu16, 0x0286u16, "Sony MZ-RH1"@),
        (0x054cu16, 0x011au16, "Sony CMT-SE7"@),
        (0x054cu16, 0x0148u16, "Sony MDS-A1"@),
        (0x0b28u16, 0x1004u16, "Kenwood MDX-J9"@),
        (0x04dau16, 0x23b3u16, "Panasonic SJ-MR250"@),
        (0x04dau16, 0x23b6u16, "Panasonic SJ-MR270"@),
        (0x0411u16, 0x0083u16, "Buffalo MD-HUSB"@)
    ]
}

/// The models that can only upload in mono natively.
pub open spec fn mono_upload_model(v: u16, p: u16) -> bool {
    (v == 0x04dd && p == 0x9014) || (v == 0x054c && p == 0x0081) || (v == 0x04da && p == 0x23b3) || (v == 0x04da && p == 0x23b6)
}

/// The supported device table lists exactly the known models, each with
/// its ids and name, mono-only upload for the mono-only models, and no
/// native LP encoding.
pub proof fn lemma_device_table_lists_models()
    ensures
        device_table().len() == netmd_models().len(),
        forall|k: int|
            0 <= k < device_table().len() ==> (#[trigger] device_table()[k]) == (
                netmd_models()[k].0,
                netmd_models()[k].1,
                netmd_models()[k].2,
                DeviceFlags {
                    native_mono_upload: mono_upload_model(netmd_models()[k].0, netmd_models()[k].1),
                    native_lp_encoding: false,
                },
            ),
{
    let with_flags = netmd_models().map_values(
        |m: (u16, u16, Seq<char>)|
            (m.0, m.1, m.2, DeviceFlags { native_mono_upload: mono_upload_model(m.0, m.1), native_lp_encoding: false }),
    );
    assert(device_table() =~= with_flags);
}

/// Every known model is found by its ids: looking up the ids of the `k`-th
/// model gives the `k`-th table entry, so no two models share ids.
pub proof fn lemma_every_model_found()
    ensures
        forall|k: int|
            0 <= k < netmd_models().len() ==> find_device_from(
                device_table(),
                #[trigger] netmd_models()[k].0,
                netmd_models()[k].1,
                0,
            ) == Some(k),
{
    lemma_device_table_lists_models();
    let t = device_table();
    reveal_with_fuel(find_device_from, 48);
        assert(find_device_from(t, t[0].0, t[0].1, 0) == Some(0int));
        assert(find_device_from(t, t[1].0, t[1].1, 0) == Some(1int));
        assert(find_device_from(t, t[2].0, t[2].1, 0) == Some(2int));
        assert(find_device_from(t, t[3].0, t[3].1, 0) == Some(3int));
        assert(find_device_from(t, t[4].0, t[4].1, 0) == Some(4int));
        assert(find_device_from(t, t[5].0, t[5].1, 0) == Some(5int));
        assert(find_device_from(t, t[6].0, t[6].1, 0) == Some(6int));
        assert(find_device_from(t, t[7].0, t[7].1, 0) == Some(7int));
        assert(find_device_from(t, t[8].0, t[8].1, 0) == Some(8int));
        assert(find_device_from(t, t[9].0, t[9].1, 0) == Some(9int));
        assert(find_device_from(t, t[10].0, t[10].1, 0) == Some(10int));
        assert(find_device_from(t, t[11].0, t[11].1, 0) == Some(11int));
        assert(find_device_from(t, t[12].0, t[12].1, 0) == Some(12int));
        assert(find_device_from(t, t[13].0, t[13].1, 0) == Some(13int));
        assert(find_device_from(t, t[14].0, t[14].1, 0) == Some(14int));
        assert(find_device_from(t, t[15].0, t[15].1, 0) == Some(15int));
        assert(find_device_from(t, t[16].0, t[16].1, 0) == Some(16int));
        assert(find_device_from(t, t[17].0, t[17].1, 0) == Some(17int));
        assert(find_device_from(t, t[18].0, t[18].1, 0) == Some(18int));
        assert(find_device_from(t, t[19].0, t[19].1, 0) == Some(19int));
        assert(find_device_from(t, t[20].0, t[20].1, 0) == Some(20int));
        assert(find_device_from(t, t[21].0, t[21].1, 0) == Some(21int));
        assert(find_device_from(t, t[22].0, t[22].1, 0) == Some(22int));
        assert(find_device_from(t, t[23].0, t[23].1, 0) == Some(23int));
        assert(find_device_from(t, t[24].0, t[24].1, 0) == Some(24int));
        assert(find_device_from(t, t[25].0, t[25].1, 0) == Some(25int));
        assert(find_device_from(t, t[26].0, t[26].1, 0) == Some(26int));
        assert(find_device_from(t, t[27].0, t[27].1, 0) == Some(27int));
        assert(find_device_from(t, t[28].0, t[28].1, 0) == Some(28int));
        assert(find_device_from(t, t[29].0, t[29].1, 0) == Some(29int));
        assert(find_device_from(t, t[30].0, t[30].1, 0) == Some(30int));
        assert(find_device_from(t, t[31].0, t[31].1, 0) == Some(31int));
        assert(find_device_from(t, t[32].0, t[32].1, 0) == Some(32int));
        assert(find_device_from(t, t[33].0, t[33].1, 0) == Some(33int));
        assert(find_device_from(t, t[34].0, t[34].1, 0) == Some(34int));
        assert(find_device_from(t, t[35].0, t[35].1, 0) == Some(35int));
        assert(find_device_from(t, t[36].0, t[36].1, 0) == Some(36int));
        assert(find_device_from(t, t[37].0, t[37].1, 0) == Some(37int));
        assert(find_device_from(t, t[38].0, t[38].1, 0) == Some(38int));
        assert(find_device_from(t, t[39].0, t[39].1, 0) == Some(39int));
        assert(find_device_from(t, t[40].0, t[40].1, 0) == Some(40int));
        assert(find_device_from(t, t[41].0, t[41].1, 0) == Some(41int));
        assert(find_device_from(t, t[42].0, t[42].1, 0) == Some(42int));
        assert(find_device_from(t, t[43].0, t[43].1, 0) == Some(43int));
        assert(find_device_from(t, t[44].0, t[44].1, 0) == Some(44int));
        assert(find_device_from(t, t[45].0, t[45].1, 0) == Some(45int));
        assert(find_device_from(t, t[46].0, t[46].1, 0) == Some(46int));
    assert forall|k: int| 0 <= k < netmd_models().len() implies find_device_from(
        device_table(),
        #[trigger] netmd_models()[k].0,
        netmd_models()[k].1,
        0,
    ) == Some(k) by {
        assert(t[k].0 == netmd_models()[k].0 && t[k].1 == netmd_models()[k].1);
    }
}

/// Looking up ids finds the first table entry that has them: where entry
/// `k` has the ids and no entry before it does, the lookup gives `k`.
pub proof fn lemma_find_device_first(t: Seq<(u16, u16, Seq<char>, DeviceFlags)>, vendor_id: u16, product_id: u16, k: int)
    requires
        0 <= k < t.len(),
        t[k].0 == vendor_id && t[k].1 == product_id,
        forall|i: int| 0 <= i < k ==> !((#[trigger] t[i]).0 == vendor_id && t[i].1 == product_id),
    ensures
        find_device_from(t, vendor_id, product_id, 0) == Some(k),
{
    lemma_find_device_from(t, vendor_id, product_id, k, 0);
}

proof fn lemma_find_device_from(t: Seq<(u16, u16, Seq<char>, DeviceFlags)>, vendor_id: u16, product_id: u16, k: int, j: int)
    requires
        0 <= j <= k < t.len(),
        t[k].0 == vendor_id && t[k].1 == product_id,
        forall|i: int| 0 <= i < k ==> !((#[trigger] t[i]).0 == vendor_id && t[i].1 == product_id),
    ensures
        find_device_from(t, vendor_id, product_id, j) == Some(k),
    decreases k - j,
{
    if j < k {
        assert(!(t[j].0 == vendor_id && t[j].1 == product_id));
        lemma_find_device_from(t, vendor_id, product_id, k, j + 1);
    }
}

/// The supported device models, in table order.
pub fn supported_devices() -> (v: Vec<DeviceDefinition>)
    ensures
        v@.len() == device_table().len(),
        forall|k: int| 0 <= k < v@.len() ==> (#[trigger] v@[k]).view() == device_table()[k],
{
    let mut v: Vec<DeviceDefinition> = Vec::new();
    v.push(DeviceDefinition { vendor_id: 0x04dd, product_id: 0x7202, name: "Sharp IM-MT899H", flags: DeviceFlags { native_mono_upload: false, native_lp_encoding: false } });
    v.push(DeviceDefinition { vendor_id: 0x04dd, product_id: 0x9013, name: "Sharp IM-DR400", flags: DeviceFlags { native_mono_upload: false, native_lp_encoding: false } });
    v.push(DeviceDefinition { vendor_id: 0x04dd, product_id: 0x9014, name: "Sharp IM-DR80", flags: DeviceFlags { native_mono_upload: true, native_lp_encoding: false } });
    v.push(DeviceDefinition { vendor_id: 0x054c, product_id: 0x0034, name: "Sony PCLK-XX", flags: DeviceFlags { native_mono_upload: false, native_lp_encoding: false } });
    v.push(DeviceDefinition { vendor_id: 0x054c, product_id: 0x0036, name: "Sony", flags: DeviceFlags { native_mono_upload: false, native_lp_encoding: false } });
    v.push(DeviceDefinition { vendor_id: 0x054c, product_id: 0x0075, name: "Sony MZ-N1", flags: DeviceFlags { native_mono_upload: false, native_lp_encoding: false } });
    v.push(DeviceDefinition { vendor_id: 0x054c, product_id: 0x007c, name: "Sony", flags: DeviceFlags { native_mono_upload: false, native_lp_encoding: false } });
    v.push(DeviceDefinition { vendor_id: 0x054c, product_id: 0x0080, name: "Sony LAM-1", flags: DeviceFlags { native_mono_upload: false, native_lp_encoding: false } });
    v.push(DeviceDefinition { vendor_id: 0x054c, product_id: 0x0081, name: "Sony MDS-JB980/MDS-NT1/MDS-JE780", flags: DeviceFlags { native_mono_upload: true, native_lp_encoding: false } });
    v.push(DeviceDefinition { vendor_id: 0x054c, product_id: 0x0084, name: "Sony MZ-N505", flags: DeviceFlags { native_mono_upload: false, native_lp_encoding: false } });
    v.push(DeviceDefinition { vendor_id: 0x054c, product_id: 0x0085, name: "Sony MZ-S1", flags: DeviceFlags { native_mono_upload: false, native_lp_encoding: false } });
    v.push(DeviceDefinition { vendor_id: 0x054c, product_id: 0x0086, name: "Sony MZ-N707", flags: DeviceFlags { native_mono_upload: false, native_lp_encoding: false } });
    v.push(DeviceDefinition { vendor_id: 0x054c, product_id: 0x008e, name: "Sony CMT-C7NT", flags: DeviceFlags { native_mono_upload: false, native_lp_encoding: false } });
    v.push(DeviceDefinition { vendor_id: 0x054c, product_id: 0x0097, name: "Sony PCGA-MDN1", flags: DeviceFlags { native_mono_upload: false, native_lp_encoding: false } });
    v.push(DeviceDefinition { vendor_id: 0x054c, product_id: 0x00ad, name: "Sony CMT-L7HD", flags: DeviceFlags { native_mono_upload: false, native_lp_encoding: false } });
    v.push(DeviceDefinition { vendor_id: 0x054c, product_id: 0x00c6, name: "Sony MZ-N10", flags: DeviceFlags { native_mono_upload: false, native_lp_encoding: false } });
    v.push(DeviceDefinition { vendor_id: 0x054c, product_id: 0x00c7, name: "Sony MZ-N910", flags: DeviceFlags { native_mono_upload: false, native_lp_encoding: false } });
    v.push(DeviceDefinition { vendor_id: 0x054c, product_id: 0x00c8, name: "Sony MZ-N710/NF810", flags: DeviceFlags { native_mono_upload: false, native_lp_encoding: false } });
    v.push(DeviceDefinition { vendor_id: 0x054c, product_id: 0x00c9, name: "Sony MZ-N510/N610", flags: DeviceFlags { native_mono_upload: false, native_lp_encoding: false } });
    v.push(DeviceDefinition { vendor_id: 0x054c, product_id: 0x00ca, name: "Sony MZ-NE410/NF520D", flags: DeviceFlags { native_mono_upload: false, native_lp_encoding: false } });
    v.push(DeviceDefinition { vendor_id: 0x054c, product_id: 0x00e7, name: "Sony CMT-M333NT/M373NT", flags: DeviceFlags { native_mono_upload: false, native_lp_encoding: false } });
    v.push(DeviceDefinition { vendor_id: 0x054c, product_id: 0x00eb, name: "Sony MZ-NE810/NE910", flags: DeviceFlags { native_mono_upload: false, native_lp_encoding: false } });
    v.push(DeviceDefinition { vendor_id: 0x054c, product_id: 0x0101, name: "Sony LAM", flags: DeviceFlags { native_mono_upload: false, native_lp_encoding: false } });
    v.push(DeviceDefinition { vendor_id: 0x054c, product_id: 0x0113, name: "Aiwa AM-NX1", flags: DeviceFlags { native_mono_upload: false, native_lp_encoding: false } });
    v.push(DeviceDefinition { vendor_id: 0x054c, product_id: 0x013f, name: "Sony MDS-S500", flags: DeviceFlags { native_mono_upload: false, native_lp_encoding: false } });
    v.push(DeviceDefinition { vendor_id: 0x054c, product_id: 0x014c, name: "Aiwa AM-NX9", flags: DeviceFlags { native_mono_upload: false, native_lp_encoding: false } });
    v.push(DeviceDefinition { vendor_id: 0x054c, product_id: 0x017e, name: "Sony MZ-NH1", flags: DeviceFlags { native_mono_upload: false, native_lp_encoding: false } });
    v.push(DeviceDefinition { vendor_id: 0x054c, product_id: 0x0180, name: "Sony MZ-NH3D", flags: DeviceFlags { native_mono_upload: false, native_lp_encoding: false } });
    v.push(DeviceDefinition { vendor_id: 0x054c, product_id: 0x0182, name: "Sony MZ-NH900", flags: DeviceFlags { native_mono_upload: false, native_lp_encoding: false } });
    v.push(DeviceDefinition { vendor_id: 0x054c, product_id: 0x0184, name: "Sony MZ-NH700/NH800", flags: DeviceFlags { native_mono_upload: false, native_lp_encoding: false } });
    v.push(DeviceDefinition { vendor_id: 0x054c, product_id: 0x0186, name: "Sony MZ-NH600", flags: DeviceFlags { native_mono_upload: false, native_lp_encoding: false } });
    v.push(DeviceDefinition { vendor_id: 0x054c, product_id: 0x0187, name: "Sony MZ-NH600D", flags: DeviceFlags { native_mono_upload: false, native_lp_encoding: false } });
    v.push(DeviceDefinition { vendor_id: 0x054c, product_id: 0x0188, name: "Sony MZ-N920", flags: DeviceFlags { native_mono_upload: false, native_lp_encoding: false } });
    v.push(DeviceDefinition { vendor_id: 0x054c, product_id: 0x018a, name: "Sony LAM-3", flags: DeviceFlags { native_mono_upload: false, native_lp_encoding: false } });
    v.push(DeviceDefinition { vendor_id: 0x054c, product_id: 0x01e9, name: "Sony MZ-DH10P", flags: DeviceFlags { native_mono_upload: false, native_lp_encoding: false } });
    v.push(DeviceDefinition { vendor_id: 0x054c, product_id: 0x0219, name: "Sony MZ-RH10", flags: DeviceFlags { native_mono_upload: false, native_lp_encoding: false } });
    v.push(DeviceDefinition { vendor_id: 0x054c, product_id: 0x021b, name: "Sony MZ-RH710/MZ-RH910", flags: DeviceFlags { native_mono_upload: false, native_lp_encoding: false } });
    v.push(DeviceDefinition { vendor_id: 0x054c, product_id: 0x021d, name: "Sony CMT-AH10", flags: DeviceFlags { native_mono_upload: false, native_lp_encoding: false } });
    v.push(DeviceDefinition { vendor_id: 0x054c, product_id: 0x022c, name: "Sony CMT-AH10", flags: DeviceFlags { native_mono_upload: false, native_lp_encoding: false } });
    v.push(DeviceDefinition { vendor_id: 0x054c, product_id: 0x023c, name: "Sony DS-HMD1", flags: DeviceFlags { native_mono_upload: false, native_lp_encoding: false } });
    v.push(DeviceDefinition { vendor_id: 0x054c, product_id: 0x0286, name: "Sony MZ-RH1", flags: DeviceFlags { native_mono_upload: false, native_lp_encoding: false } });
    v.push(DeviceDefinition { vendor_id: 0x054c, product_id: 0x011a, name: "Sony CMT-SE7", flags: DeviceFlags { native_mono_upload: false, native_lp_encoding: false } });
    v.push(DeviceDefinition { vendor_id: 0x054c, product_id: 0x0148, name: "Sony MDS-A1", flags: DeviceFlags { native_mono_upload: false, native_lp_encoding: false } });
    v.push(DeviceDefinition { vendor_id: 0x0b28, product_id: 0x1004, name: "Kenwood MDX-J9", flags: DeviceFlags { native_mono_upload: false, native_lp_encoding: false } });
    v.push(DeviceDefinition { vendor_id: 0x04da, product_id: 0x23b3, name: "Panasonic SJ-MR250", flags: DeviceFlags { native_mono_upload: true, native_lp_encoding: false } });
    v.push(DeviceDefinition { vendor_id: 0x04da, product_id: 0x23b6, name: "Panasonic SJ-MR270", flags: DeviceFlags { native_mono_upload: true, native_lp_encoding: false } });
    v.push(DeviceDefinition { vendor_id: 0x0411, product_id: 0x0083, name: "Buffalo MD-HUSB", flags: DeviceFlags { native_mono_upload: false, native_lp_encoding: false } });
    assert(v@.map_values(|d: DeviceDefinition| d.view()) =~= device_table());
    assert forall|k: int| 0 <= k < v@.len() implies (#[trigger] v@[k]).view() == device_table()[k] by {
        assert(v@.map_values(|d: DeviceDefinition| d.view())[k] == v@[k].view());
    }
    v
}

/// A USB vendor/product ID pair that selects one device.
#[derive(Debug, Clone, Copy, PartialEq, Eq, Structural)]
pub struct DeviceSelector {
    pub vendor_id: u16,
    pub product_id: u16,
}

impl DeviceSelector {
    /// A selector for the given IDs.
    pub fn new(vendor_id: u16, product_id: u16) -> (s: DeviceSelector)
        ensures
            s.vendor_id == vendor_id,
            s.product_id == product_id,
    {
        DeviceSelector { vendor_id, product_id }
    }
}

/// Position of the first table entry with the given IDs, from `k` on.
pub open spec fn find_device_from(t: Seq<(u16, u16, Seq<char>, DeviceFlags)>, vendor_id: u16, product_id: u16, k: int) -> Option<int>
    decreases t.len() - k,
{
    if k < 0 || k >= t.len() {
        None
    } else if t[k].0 == vendor_id && t[k].1 == product_id {
        Some(k)
    } else {
        find_device_from(t, vendor_id, product_id, k + 1)
    }
}

proof fn lemma_find_device_bounds(t: Seq<(u16, u16, Seq<char>, DeviceFlags)>, v: u16, p: u16, k: int)
    requires
        k >= 0,
    ensures
        find_device_from(t, v, p, k) matches Some(i) ==> k <= i < t.len(),
    decreases t.len() - k,
{
    if k < t.len() {
        lemma_find_device_bounds(t, v, p, k + 1);
    }
}

/// The supported model with the given IDs (the first such table entry).
pub fn supported_device(vendor_id: u16, product_id: u16) -> (r: Option<DeviceDefinition>)
    ensures
        match find_device_from(device_table(), vendor_id, product_id, 0) {
            Some(k) => r matches Some(d) && d.view() == device_table()[k],
            None => r is None,
        },
{
    let table = supported_devices();
    proof {
        lemma_find_device_bounds(device_table(), vendor_id, product_id, 0);
    }
    let mut k: usize = 0;
    while k < table.len()
        invariant
            k <= table@.len(),
            table@.len() == device_table().len(),
            forall|m: int| 0 <= m < table@.len() ==> (#[trigger] table@[m]).view() == device_table()[m],
            find_device_from(device_table(), vendor_id, product_id, 0) == find_device_from(
                device_table(),
                vendor_id,
                product_id,
                k as int,
            ),
        decreases table@.len() - k,
    {
        assert(table@[k as int].view() == device_table()[k as int]);
        if table[k].vendor_id == vendor_id && table[k].product_id == product_id {
            return Some(table[k]);
        }
        k = k + 1;
    }
    None
}

/// Whether a connected model passes the selector (every model does without one).
pub open spec fn selected(d: (u16, u16), selector: Option<DeviceSelector>) -> bool {
    match selector {
        None => true,
        Some(s) => d.0 == s.vendor_id && d.1 == s.product_id,
    }
}

/// Positions of the connected supported devices that pass the selector.
pub open spec fn matching_devices(connected: Seq<(u16, u16)>, selector: Option<DeviceSelector>) -> Seq<int>
    decreases connected.len(),
{
    if connected.len() == 0 {
        Seq::empty()
    } else if selected(connected.last(), selector) {
        matching_devices(connected.drop_last(), selector).push(connected.len() - 1)
    } else {
        matching_devices(connected.drop_last(), selector)
    }
}

/// Picks the device to open among the connected supported devices (their
/// vendor/product IDs): the only one passing the selector; with none, the
/// selector's IDs are reported not found (or no device at all without a
/// selector); with several, the choice is refused.
pub fn select_device(connected: &[(u16, u16)], selector: Option<DeviceSelector>) -> (r: Result<usize, NetMDError>)
    ensures
        ({
            let m = matching_devices(connected@, selector);
            &&& m.len() == 1 ==> r == Ok::<usize, NetMDError>(m[0] as usize)
            &&& m.len() == 0 ==> r == Err::<usize, NetMDError>(
                match selector {
                    Some(s) => NetMDError::DeviceNotFoundById { vendor_id: s.vendor_id, product_id: s.product_id },
                    None => NetMDError::DeviceNotFound,
                },
            )
            &&& m.len() > 1 ==> r == Err::<usize, NetMDError>(NetMDError::MultipleSupportedDevices)
        }),
{
    let mut found: usize = 0;
    let mut first: usize = 0;
    let mut i: usize = 0;
    while i < connected.len()
        invariant
            i <= connected@.len(),
            found == (if matching_devices(connected@.take(i as int), selector).len() > 2 {
                2
            } else {
                matching_devices(connected@.take(i as int), selector).len()
            }),
            found >= 1 ==> first == matching_devices(connected@.take(i as int), selector)[0],
        decreases connected@.len() - i,
    {
        assert(connected@.take(i + 1).drop_last() =~= connected@.take(i as int));
        let d = connected[i];
        let pass = match selector {
            None => true,
            Some(s) => d.0 == s.vendor_id && d.1 == s.product_id,
        };
        if pass {
            if found == 0 {
                first = i;
            }
            if found < 2 {
                found = found + 1;
            }
        }
        proof {
            let prev = matching_devices(connected@.take(i as int), selector);
            if pass {
                assert(matching_devices(connected@.take(i + 1), selector) == prev.push(i as int));
            }
        }
        i = i + 1;
    }
    assert(connected@.take(connected@.len() as int) =~= connected@);
    if found == 1 {
        Ok(first)
    } else if found == 0 {
        match selector {
            Some(s) => Err(NetMDError::DeviceNotFoundById { vendor_id: s.vendor_id, product_id: s.product_id }),
            None => Err(NetMDError::DeviceNotFound),
        }
    } else {
        Err(NetMDError::MultipleSupportedDevices)
    }
}

} // verus!
