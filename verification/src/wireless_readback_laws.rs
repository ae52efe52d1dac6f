//! What is written into the section of a radio is read back from it as the same radio.

use vstd::prelude::*;

use crate::firewall_uci::UciSectionView;
use crate::number_laws::{law_sized_numbers_round_trip, lemma_decimal};
use crate::readback_laws::one;
use crate::text::{decimal, is_digit, starts};
use crate::uci_render::flag;
use crate::wireless_model::{
    WirelessBand, WirelessChannel, WirelessChannelWidth, WirelessRadioConfigView,
};
use crate::wireless_openwrt::{
    band_given, band_of, band_text, channel_of, channel_text, default_family, disabled_of, family_prefix,
    family_text, htmode_of, hwmode_of, is_representable, is_scalar_radio, mode_given, mode_text, power_of,
    power_text, radio_binding, radio_options, radio_value, width_of, width_text, OpenWrtWirelessBandEncoding,
    OpenWrtWirelessHtModeFamily, OpenWrtWirelessObjectBindingView,
};

verus! {

/// The value that the band of a radio is written as: the one it has where the band stays.
pub open spec fn kept_band(
    b: OpenWrtWirelessObjectBindingView,
    before: WirelessRadioConfigView,
    after: WirelessRadioConfigView,
) -> Option<Seq<char>> {
    if before.band == after.band {
        Some(b.band_value)
    } else {
        band_text(b.band_encoding, after.band)
    }
}

/// Whether a section holds the options that an update of a radio writes, and no others that a radio is
/// read from but the type of its driver.
pub open spec fn holds_update(
    s: UciSectionView,
    b: OpenWrtWirelessObjectBindingView,
    before: WirelessRadioConfigView,
    after: WirelessRadioConfigView,
) -> bool {
    &&& s.get("type"@) == Some(seq!["mac80211"@])
    &&& s.get("disabled"@) == Some(seq![flag(!after.enabled)])
    &&& s.get("channel"@) == Some(seq![channel_text(after.channel)])
    &&& s.get("htmode"@) == one(mode_text(b, before, after)->Ok_0)
    &&& s.get("country"@) == one(after.country)
    &&& s.get("txpower"@) == one(power_text(after.tx_power_dbm))
    &&& if b.band_encoding == OpenWrtWirelessBandEncoding::Band {
        s.get("band"@) == one(kept_band(b, before, after)) && s.get("hwmode"@) is None
    } else {
        s.get("hwmode"@) == one(kept_band(b, before, after)) && s.get("band"@) is None
    }
}

proof fn lemma_band_text(e: OpenWrtWirelessBandEncoding, band: WirelessBand)
    requires
        band_text(e, band) is Some,
    ensures
        e == OpenWrtWirelessBandEncoding::Band ==> band_of(band_text(e, band)->Some_0) == Some(band),
        e == OpenWrtWirelessBandEncoding::HwMode ==> hwmode_of(band_text(e, band)->Some_0) == Some(
            band,
        ),
{
    reveal_strlit("2g");
    reveal_strlit("5g");
    reveal_strlit("6g");
    reveal_strlit("11g");
    reveal_strlit("11a");
    assert("2g"@[0] == '2');
    assert("5g"@[0] == '5');
    assert("6g"@[0] == '6');
    assert("11g"@[2] == 'g');
    assert("11a"@[2] == 'a');
}

proof fn lemma_width(w: WirelessChannelWidth)
    requires
        w != WirelessChannelWidth::Auto,
    ensures
        width_of(width_text(w)) == Some(w),
        width_text(w).len() > 0,
        is_digit(width_text(w)[0]),
{
    reveal_strlit("20");
    reveal_strlit("40");
    reveal_strlit("40+");
    reveal_strlit("40-");
    reveal_strlit("80");
    reveal_strlit("160");
    assert("20"@[0] == '2');
    assert("40"@[0] == '4');
    assert("80"@[0] == '8');
    assert("160"@[0] == '1');
    assert("40+"@[0] == '4');
    assert("40-"@[0] == '4');
}

proof fn lemma_mode(f: OpenWrtWirelessHtModeFamily, w: WirelessChannelWidth)
    requires
        w != WirelessChannelWidth::Auto,
    ensures
        htmode_of(family_text(f) + width_text(w)) == Some((w, f)),
{
    lemma_width(w);
    reveal_strlit("HT");
    reveal_strlit("VHT");
    reveal_strlit("HE");
    reveal_strlit("EHT");
    let t = family_text(f);
    let s = t + width_text(w);
    assert(s.take(t.len() as int) =~= t);
    assert(s.skip(t.len() as int) =~= width_text(w));
    assert(s[0] == t[0] && s[1] == t[1]);
    assert("EHT"@[0] == 'E' && "EHT"@[1] == 'H' && "EHT"@[2] == 'T');
    assert("VHT"@[0] == 'V' && "VHT"@[1] == 'H' && "VHT"@[2] == 'T');
    assert("HT"@[0] == 'H' && "HT"@[1] == 'T');
    assert("HE"@[0] == 'H' && "HE"@[1] == 'E');
    assert(starts(s, t));
    if f != OpenWrtWirelessHtModeFamily::Eht {
        if starts(s, "EHT"@) {
            assert(s[0] == "EHT"@[0]);
        }
    }
    if f != OpenWrtWirelessHtModeFamily::Vht {
        if starts(s, "VHT"@) {
            assert(s[0] == "VHT"@[0]);
        }
    }
    if f == OpenWrtWirelessHtModeFamily::He {
        if starts(s, "HT"@) {
            assert(s[1] == "HT"@[1]);
        }
    }
    assert(family_prefix(s) == Some((f, t.len() as int)));
}

proof fn lemma_channel(c: WirelessChannel)
    ensures
        channel_of(Some(channel_text(c))) == Some(c),
{
    if let WirelessChannel::Fixed { channel } = c {
        reveal_strlit("auto");
        law_sized_numbers_round_trip(0, channel, 0);
        lemma_decimal(channel as nat);
        let t = decimal(channel as nat);
        assert(is_digit(t[0]));
        assert("auto"@[0] == 'a');
    }
}

proof fn lemma_scalar_radio(
    s: UciSectionView,
    b: OpenWrtWirelessObjectBindingView,
    before: WirelessRadioConfigView,
    after: WirelessRadioConfigView,
)
    requires
        holds_update(s, b, before, after),
    ensures
        is_scalar_radio(s),
{
    let names = radio_options();
    assert forall|i: int| 0 <= i < names.len() implies match s.get(#[trigger] names[i]) {
        Some(v) => v.len() == 1,
        None => true,
    } by {
        assert(i == 0 || i == 1 || i == 2 || i == 3 || i == 4 || i == 5 || i == 6 || i == 7);
    }
}

/// The family that the mode of a radio is written with: the one that it has, or the usual one of the band.
pub open spec fn written_family(
    b: OpenWrtWirelessObjectBindingView,
    after: WirelessRadioConfigView,
) -> OpenWrtWirelessHtModeFamily {
    match b.htmode_family {
        Some(f) => f,
        None => default_family(after.band),
    }
}

/// Whether the mode that a binding holds is the one of a radio: none with no family, or one that is read
/// as the width of the radio and the family of the binding.
pub open spec fn is_mode_of(
    b: OpenWrtWirelessObjectBindingView,
    before: WirelessRadioConfigView,
) -> bool {
    match b.htmode {
        None => b.htmode_family is None,
        Some(m) => b.htmode_family is Some && htmode_of(m) == Some(
            (before.width, b.htmode_family->Some_0),
        ),
    }
}

/// A mode that is written is read back with the width of the radio, and with the family that the radio
/// had, or else the usual one of its band.
pub proof fn law_written_mode_is_read_back(
    b: OpenWrtWirelessObjectBindingView,
    before: WirelessRadioConfigView,
    after: WirelessRadioConfigView,
)
    requires
        is_mode_of(b, before),
        mode_text(b, before, after) is Ok,
        mode_text(b, before, after)->Ok_0 is Some,
    ensures
        htmode_of(mode_text(b, before, after)->Ok_0->Some_0) == Some(
            (after.width, written_family(b, after)),
        ),
{
    if !(before.width == after.width && b.htmode is Some) {
        lemma_mode(written_family(b, after), after.width);
    }
}

/// A radio that is read from a section, and changed in a way that the section can represent, is read
/// back as changed from a section that holds what the update writes: by the option that its band was
/// given by before, and with the family of its mode, where one was written.
pub proof fn law_written_radio_is_read_back(
    first: UciSectionView,
    s: UciSectionView,
    after: WirelessRadioConfigView,
)
    requires
        radio_value(first) is Some,
        s.selector == first.selector,
        after.id == first.selector,
        ({
            let d = radio_value(first)->Some_0;
            let b = radio_binding(first, d);
            &&& is_representable(b, d.radio, after)
            &&& mode_text(b, d.radio, after) is Ok
            &&& holds_update(s, b, d.radio, after)
        }),
    ensures
        radio_value(s) is Some,
        radio_value(s)->Some_0.radio == after,
        radio_value(s)->Some_0.band_encoding == radio_value(first)->Some_0.band_encoding,
        ({
            let d = radio_value(first)->Some_0;
            let b = radio_binding(first, d);
            radio_value(s)->Some_0.htmode_family == (if mode_text(b, d.radio, after)->Ok_0 is Some {
                Some(written_family(b, after))
            } else {
                None
            })
        }),
{
    let d = radio_value(first)->Some_0;
    let b = radio_binding(first, d);
    let before = d.radio;
    lemma_scalar_radio(s, b, before, after);
    lemma_channel(after.channel);
    reveal_strlit("0");
    reveal_strlit("1");
    assert("0"@[0] == '0');
    assert("1"@[0] == '1');
    assert(disabled_of(s.first("disabled"@)) == Some(!after.enabled));
    assert(kept_band(b, before, after) is Some);
    if before.band != after.band {
        lemma_band_text(b.band_encoding, after.band);
    }
    assert(band_given(s) is Some);
    assert(band_given(s)->Some_0.0 == after.band);
    assert(band_given(s)->Some_0.1 == b.band_encoding);
    assert(is_mode_of(b, before));
    if mode_text(b, before, after)->Ok_0 is Some {
        law_written_mode_is_read_back(b, before, after);
    }
    assert(mode_given(s) is Some);
    assert(mode_given(s)->Some_0.0 == after.width);
    if let Some(n) = after.tx_power_dbm {
        law_sized_numbers_round_trip(n, 0, 0);
    }
    assert(power_of(s.first("txpower"@)) == Some(after.tx_power_dbm));
}

} // verus!
