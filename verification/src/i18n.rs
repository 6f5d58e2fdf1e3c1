//! The installer's languages and texts.

use vstd::prelude::*;

verus! {

/// A language the installer speaks.
#[derive(Clone, Copy, Debug, PartialEq, Eq, Structural)]
pub enum Lang {
    En,
    De,
}

/// A value of a locale variable asks for German: it begins with `de`,
/// in either case.
pub open spec fn german(v: Seq<char>) -> bool {
    v.len() >= 2 && (v[0] == 'd' || v[0] == 'D') && (v[1] == 'e' || v[1] == 'E')
}

impl Lang {
    /// The language asked for by the locale variables `LC_ALL`,
    /// `LC_MESSAGES` and `LANG`, in that order (`None` for one that is not
    /// set): German where any of them begins with `de` (lower-cased),
    /// English otherwise.
    pub fn detect(values: &Vec<Option<String>>) -> (res: Lang)
        ensures
            res == (if exists|i: int|
                0 <= i < values@.len() && (#[trigger] values@[i] matches Some(v) && german(v@)) {
                Lang::De
            } else {
                Lang::En
            }),
    {
        let mut i: usize = 0;
        while i < values.len()
            invariant
                i <= values@.len(),
                forall|j: int| 0 <= j < i ==> !(#[trigger] values@[j] matches Some(v) && german(v@)),
            decreases values@.len() - i,
        {
            match &values[i] {
                Some(v) => {
                    let cs = crate::text::chars_of(v.as_str());
                    if cs.len() >= 2 && (cs[0] == 'd' || cs[0] == 'D') && (cs[1] == 'e' || cs[1]
                        == 'E') {
                        return Lang::De;
                    }
                },
                None => {},
            }
            i = i + 1;
        }
        Lang::En
    }
}

/// A text of the user interface.
#[derive(Clone, Copy, Debug, PartialEq, Eq, Structural)]
pub enum Text {
    Loading,
    SelectRelease,
    Production,
    Development,
    Download,
    Downloading,
    SelectDisk,
    DataLossWarning,
    Flash,
    Flashing,
    Done,
    DoneHint,
    Close,
    Error,
    RpibootNotFound,
    LocalFileInvalid,
    LoadingShort,
    Removable,
}

/// The wording of `text` in `lang`.
pub open spec fn wording(lang: Lang, text: Text) -> Seq<char> {
    match (lang, text) {
        (Lang::En, Text::Loading) => "Loading available releases..."@,
        (Lang::De, Text::Loading) => "Verfügbare Releases werden geladen..."@,
        (Lang::En, Text::SelectRelease) => "Select a release"@,
        (Lang::De, Text::SelectRelease) => "Release auswählen"@,
        (Lang::En, Text::Production) => "Production"@,
        (Lang::De, Text::Production) => "Produktion"@,
        (Lang::En, Text::Development) => "Development"@,
        (Lang::De, Text::Development) => "Entwicklung"@,
        (Lang::En, Text::Download) => "Download"@,
        (Lang::De, Text::Download) => "Herunterladen"@,
        (Lang::En, Text::Downloading) => "Downloading image..."@,
        (Lang::De, Text::Downloading) => "Image wird heruntergeladen..."@,
        (Lang::En, Text::SelectDisk) => "Select target disk"@,
        (Lang::De, Text::SelectDisk) => "Zieldatenträger auswählen"@,
        (Lang::En, Text::DataLossWarning) => "All data on the selected disk will be erased!"@,
        (Lang::De, Text::DataLossWarning) => "Alle Daten auf dem ausgewählten Datenträger werden gelöscht!"@,
        (Lang::En, Text::Flash) => "Flash image"@,
        (Lang::De, Text::Flash) => "Image flashen"@,
        (Lang::En, Text::Flashing) => "Flashing image to disk..."@,
        (Lang::De, Text::Flashing) => "Image wird auf den Datenträger geflasht..."@,
        (Lang::En, Text::Done) => "Installation complete!"@,
        (Lang::De, Text::Done) => "Installation abgeschlossen!"@,
        (Lang::En, Text::DoneHint) => "You can now boot the device."@,
        (Lang::De, Text::DoneHint) => "Das Gerät kann jetzt gestartet werden."@,
        (Lang::En, Text::Close) => "Close"@,
        (Lang::De, Text::Close) => "Schließen"@,
        (Lang::En, Text::Error) => "Error"@,
        (Lang::De, Text::Error) => "Fehler"@,
        (Lang::En, Text::RpibootNotFound) => "rpiboot was not found on this system.\nInstall it from https://github.com/raspberrypi/usbboot"@,
        (Lang::De, Text::RpibootNotFound) => "rpiboot wurde auf diesem System nicht gefunden.\nZu finden unter https://github.com/raspberrypi/usbboot"@,
        (Lang::En, Text::LocalFileInvalid) => "The chosen file is not an image (.img, .iso or .gz) or is empty."@,
        (Lang::De, Text::LocalFileInvalid) => "Die gewählte Datei ist kein Image (.img, .iso oder .gz) oder ist leer."@,
        (Lang::En, Text::LoadingShort) => "Loading..."@,
        (Lang::De, Text::LoadingShort) => "Lädt..."@,
        (Lang::En, Text::Removable) => "Removable"@,
        (Lang::De, Text::Removable) => "Wechselmedium"@,
    }
}

/// The text `text` in the language `lang`.
pub fn t(lang: Lang, text: Text) -> (res: &'static str)
    ensures
        res@ == wording(lang, text),
{
    match (lang, text) {
        (Lang::En, Text::Loading) => "Loading available releases...",
        (Lang::De, Text::Loading) => "Verfügbare Releases werden geladen...",
        (Lang::En, Text::SelectRelease) => "Select a release",
        (Lang::De, Text::SelectRelease) => "Release auswählen",
        (Lang::En, Text::Production) => "Production",
        (Lang::De, Text::Production) => "Produktion",
        (Lang::En, Text::Development) => "Development",
        (Lang::De, Text::Development) => "Entwicklung",
        (Lang::En, Text::Download) => "Download",
        (Lang::De, Text::Download) => "Herunterladen",
        (Lang::En, Text::Downloading) => "Downloading image...",
        (Lang::De, Text::Downloading) => "Image wird heruntergeladen...",
        (Lang::En, Text::SelectDisk) => "Select target disk",
        (Lang::De, Text::SelectDisk) => "Zieldatenträger auswählen",
        (Lang::En, Text::DataLossWarning) => "All data on the selected disk will be erased!",
        (Lang::De, Text::DataLossWarning) => "Alle Daten auf dem ausgewählten Datenträger werden gelöscht!",
        (Lang::En, Text::Flash) => "Flash image",
        (Lang::De, Text::Flash) => "Image flashen",
        (Lang::En, Text::Flashing) => "Flashing image to disk...",
        (Lang::De, Text::Flashing) => "Image wird auf den Datenträger geflasht...",
        (Lang::En, Text::Done) => "Installation complete!",
        (Lang::De, Text::Done) => "Installation abgeschlossen!",
        (Lang::En, Text::DoneHint) => "You can now boot the device.",
        (Lang::De, Text::DoneHint) => "Das Gerät kann jetzt gestartet werden.",
        (Lang::En, Text::Close) => "Close",
        (Lang::De, Text::Close) => "Schließen",
        (Lang::En, Text::Error) => "Error",
        (Lang::De, Text::Error) => "Fehler",
        (Lang::En, Text::RpibootNotFound) => "rpiboot was not found on this system.\nInstall it from https://github.com/raspberrypi/usbboot",
        (Lang::De, Text::RpibootNotFound) => "rpiboot wurde auf diesem System nicht gefunden.\nZu finden unter https://github.com/raspberrypi/usbboot",
        (Lang::En, Text::LocalFileInvalid) => "The chosen file is not an image (.img, .iso or .gz) or is empty.",
        (Lang::De, Text::LocalFileInvalid) => "Die gewählte Datei ist kein Image (.img, .iso oder .gz) oder ist leer.",
        (Lang::En, Text::LoadingShort) => "Loading...",
        (Lang::De, Text::LoadingShort) => "Lädt...",
        (Lang::En, Text::Removable) => "Removable",
        (Lang::De, Text::Removable) => "Wechselmedium",
    }
}

} // verus!
