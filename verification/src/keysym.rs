//! Named keys of the surrounding UI toolkit and their mapping to key
//! symbols. The mapping is a fixed lookup table held bit-exact against the
//! platform's key-symbol namespace: many named keys map to no symbol at
//! all and are uncapturable.

use vstd::prelude::*;
use crate::keys::{KeyEvent, KeyEventView, NamedKey};
use vstd::string::StrSliceExecFns;

verus! {

/// An ASCII letter or digit, which names its own key symbol.
pub open spec fn is_ascii_alnum(c: char) -> bool {
    let u = c as u32;
    (97 <= u && u <= 122) || (65 <= u && u <= 90) || (48 <= u && u <= 57)
}

/// One hexadecimal digit, upper case.
pub open spec fn hex_digit(n: int) -> char {
    if n < 10 {
        ((48 + n) as u8) as char
    } else {
        ((55 + n) as u8) as char
    }
}

/// The hexadecimal digits of a number, most significant first.
pub open spec fn hex_seq(n: nat) -> Seq<char>
    decreases n,
{
    if n < 16 {
        seq![hex_digit(n as int)]
    } else {
        hex_seq(n / 16).push(hex_digit((n % 16) as int))
    }
}

/// The key-symbol name of a character outside the named range: `U`
/// followed by its code point in upper-case hexadecimal, at least four
/// digits.
pub open spec fn unicode_name(u: nat) -> Seq<char> {
    seq!['U'] + (if u < 0x10 {
        seq!['0', '0', '0']
    } else if u < 0x100 {
        seq!['0', '0']
    } else if u < 0x1000 {
        seq!['0']
    } else {
        Seq::<char>::empty()
    }) + hex_seq(u)
}

/// The key-symbol name a captured character produces. The conversion is
/// total: an ASCII letter or digit names itself, ASCII punctuation and
/// space carry their platform names, and any other character is named by
/// its code point.
pub open spec fn char_keysym_name(c: char) -> Seq<char> {
    if is_ascii_alnum(c) {
        seq![c]
    } else if c == ' ' {
        "space"@
    } else if c == '!' {
        "exclam"@
    } else if c == '"' {
        "quotedbl"@
    } else if c == '#' {
        "numbersign"@
    } else if c == '$' {
        "dollar"@
    } else if c == '%' {
        "percent"@
    } else if c == '&' {
        "ampersand"@
    } else if c == '\'' {
        "apostrophe"@
    } else if c == '(' {
        "parenleft"@
    } else if c == ')' {
        "parenright"@
    } else if c == '*' {
        "asterisk"@
    } else if c == '+' {
        "plus"@
    } else if c == ',' {
        "comma"@
    } else if c == '-' {
        "minus"@
    } else if c == '.' {
        "period"@
    } else if c == '/' {
        "slash"@
    } else if c == ':' {
        "colon"@
    } else if c == ';' {
        "semicolon"@
    } else if c == '<' {
        "less"@
    } else if c == '=' {
        "equal"@
    } else if c == '>' {
        "greater"@
    } else if c == '?' {
        "question"@
    } else if c == '@' {
        "at"@
    } else if c == '[' {
        "bracketleft"@
    } else if c == '\\' {
        "backslash"@
    } else if c == ']' {
        "bracketright"@
    } else if c == '^' {
        "asciicircum"@
    } else if c == '_' {
        "underscore"@
    } else if c == '`' {
        "grave"@
    } else if c == '{' {
        "braceleft"@
    } else if c == '|' {
        "bar"@
    } else if c == '}' {
        "braceright"@
    } else if c == '~' {
        "asciitilde"@
    } else {
        unicode_name(c as u32 as nat)
    }
}

/// The key symbol a raw key press produces: a named key through the lookup
/// table, of which many map to no symbol at all; a captured character
/// always through its first character's name.
pub open spec fn keysym_of(k: KeyEventView) -> Option<Seq<char>> {
    match k {
        KeyEventView::Named(n) => named_keysym_spec(n),
        KeyEventView::Character(s) => if s.len() > 0 {
            Some(char_keysym_name(s[0]))
        } else {
            None
        },
    }
}

/// Appends the hexadecimal digits of `n`, most significant first.
fn append_hex(out: &mut String, n: u32)
    ensures
        final(out)@ == old(out)@ + hex_seq(n as nat),
    decreases n,
{
    if n >= 16 {
        append_hex(out, n / 16);
    }
    let ghost mid = out@;
    let d = n % 16;
    match d {
        0 => {
            out.append("0");
            proof {
                reveal_strlit("0");
                assert(out@ =~= mid.push(hex_digit(d as int)));
            }
        },
        1 => {
            out.append("1");
            proof {
                reveal_strlit("1");
                assert(out@ =~= mid.push(hex_digit(d as int)));
            }
        },
        2 => {
            out.append("2");
            proof {
                reveal_strlit("2");
                assert(out@ =~= mid.push(hex_digit(d as int)));
            }
        },
        3 => {
            out.append("3");
            proof {
                reveal_strlit("3");
                assert(out@ =~= mid.push(hex_digit(d as int)));
            }
        },
        4 => {
            out.append("4");
            proof {
                reveal_strlit("4");
                assert(out@ =~= mid.push(hex_digit(d as int)));
            }
        },
        5 => {
            out.append("5");
            proof {
                reveal_strlit("5");
                assert(out@ =~= mid.push(hex_digit(d as int)));
            }
        },
        6 => {
            out.append("6");
            proof {
                reveal_strlit("6");
                assert(out@ =~= mid.push(hex_digit(d as int)));
            }
        },
        7 => {
            out.append("7");
            proof {
                reveal_strlit("7");
                assert(out@ =~= mid.push(hex_digit(d as int)));
            }
        },
        8 => {
            out.append("8");
            proof {
                reveal_strlit("8");
                assert(out@ =~= mid.push(hex_digit(d as int)));
            }
        },
        9 => {
            out.append("9");
            proof {
                reveal_strlit("9");
                assert(out@ =~= mid.push(hex_digit(d as int)));
            }
        },
        10 => {
            out.append("A");
            proof {
                reveal_strlit("A");
                assert(out@ =~= mid.push(hex_digit(d as int)));
            }
        },
        11 => {
            out.append("B");
            proof {
                reveal_strlit("B");
                assert(out@ =~= mid.push(hex_digit(d as int)));
            }
        },
        12 => {
            out.append("C");
            proof {
                reveal_strlit("C");
                assert(out@ =~= mid.push(hex_digit(d as int)));
            }
        },
        13 => {
            out.append("D");
            proof {
                reveal_strlit("D");
                assert(out@ =~= mid.push(hex_digit(d as int)));
            }
        },
        14 => {
            out.append("E");
            proof {
                reveal_strlit("E");
                assert(out@ =~= mid.push(hex_digit(d as int)));
            }
        },
        _ => {
            out.append("F");
            proof {
                assert(d == 15);
                reveal_strlit("F");
                assert(out@ =~= mid.push(hex_digit(d as int)));
            }
        },
    }
    proof {
        if n >= 16 {
            assert(hex_seq(n as nat) == hex_seq((n / 16) as nat).push(hex_digit((n % 16) as int)));
            assert(out@ =~= old(out)@ + hex_seq(n as nat));
        } else {
            assert(hex_seq(n as nat) =~= seq![hex_digit(n as int)]);
            assert(out@ =~= old(out)@ + hex_seq(n as nat));
        }
    }
}

/// The name of a captured character that is no ASCII letter or digit.
fn symbol_char_name(c: char) -> (r: String)
    requires
        !is_ascii_alnum(c),
    ensures
        r@ == char_keysym_name(c),
{
    if c == ' ' {
        return String::from_str("space");
    }
    if c == '!' {
        return String::from_str("exclam");
    }
    if c == '"' {
        return String::from_str("quotedbl");
    }
    if c == '#' {
        return String::from_str("numbersign");
    }
    if c == '$' {
        return String::from_str("dollar");
    }
    if c == '%' {
        return String::from_str("percent");
    }
    if c == '&' {
        return String::from_str("ampersand");
    }
    if c == '\'' {
        return String::from_str("apostrophe");
    }
    if c == '(' {
        return String::from_str("parenleft");
    }
    if c == ')' {
        return String::from_str("parenright");
    }
    if c == '*' {
        return String::from_str("asterisk");
    }
    if c == '+' {
        return String::from_str("plus");
    }
    if c == ',' {
        return String::from_str("comma");
    }
    if c == '-' {
        return String::from_str("minus");
    }
    if c == '.' {
        return String::from_str("period");
    }
    if c == '/' {
        return String::from_str("slash");
    }
    if c == ':' {
        return String::from_str("colon");
    }
    if c == ';' {
        return String::from_str("semicolon");
    }
    if c == '<' {
        return String::from_str("less");
    }
    if c == '=' {
        return String::from_str("equal");
    }
    if c == '>' {
        return String::from_str("greater");
    }
    if c == '?' {
        return String::from_str("question");
    }
    if c == '@' {
        return String::from_str("at");
    }
    if c == '[' {
        return String::from_str("bracketleft");
    }
    if c == '\\' {
        return String::from_str("backslash");
    }
    if c == ']' {
        return String::from_str("bracketright");
    }
    if c == '^' {
        return String::from_str("asciicircum");
    }
    if c == '_' {
        return String::from_str("underscore");
    }
    if c == '`' {
        return String::from_str("grave");
    }
    if c == '{' {
        return String::from_str("braceleft");
    }
    if c == '|' {
        return String::from_str("bar");
    }
    if c == '}' {
        return String::from_str("braceright");
    }
    if c == '~' {
        return String::from_str("asciitilde");
    }
    let u = c as u32;
    let mut out = String::from_str("U");
    proof {
        reveal_strlit("U");
        assert(out@ =~= seq!['U']);
    }
    let ghost base = out@;
    if u < 0x10 {
        out.append("000");
        proof {
            reveal_strlit("000");
            assert(out@ =~= base + seq!['0', '0', '0']);
        }
    } else if u < 0x100 {
        out.append("00");
        proof {
            reveal_strlit("00");
            assert(out@ =~= base + seq!['0', '0']);
        }
    } else if u < 0x1000 {
        out.append("0");
        proof {
            reveal_strlit("0");
            assert(out@ =~= base + seq!['0']);
        }
    }
    append_hex(&mut out, u);
    proof {
        assert(out@ =~= unicode_name(u as nat));
    }
    out
}

/// The key symbol a raw key press produces, or `None` for an uncapturable
/// named key.
pub fn keysym_for(key: &KeyEvent) -> (r: Option<String>)
    ensures
        match r {
            Some(s) => keysym_of(key@) == Some(s@),
            None => keysym_of(key@) is None,
        },
{
    match key {
        KeyEvent::Named(n) => named_keysym(n),
        KeyEvent::Character(s) => {
            let n = s.as_str().unicode_len();
            if n > 0 {
                let c = s.as_str().get_char(0);
                let u = c as u32;
                if (97 <= u && u <= 122) || (65 <= u && u <= 90) || (48 <= u && u <= 57) {
                    let t = s.as_str().substring_char(0, 1);
                    proof {
                        assert(t@ =~= seq![s@[0]]);
                    }
                    Some(String::from_str(t))
                } else {
                    Some(symbol_char_name(c))
                }
            } else {
                None
            }
        },
    }
}

/// The key-symbol name a named key maps to, or `None` for a key that has
/// no symbol and cannot be captured.
pub open spec fn named_keysym_spec(k: NamedKey) -> Option<Seq<char>> {
    match k {
        NamedKey::Alt => None,
        NamedKey::AltGraph => Some("SUN_AltGraph"@),
        NamedKey::CapsLock => Some("Caps_Lock"@),
        NamedKey::Control => None,
        NamedKey::Fn => Some("XF86_Fn"@),
        NamedKey::FnLock => None,
        NamedKey::NumLock => Some("Num_Lock"@),
        NamedKey::ScrollLock => Some("Scroll_Lock"@),
        NamedKey::Shift => None,
        NamedKey::Symbol => None,
        NamedKey::SymbolLock => None,
        NamedKey::Meta => None,
        NamedKey::Hyper => Some("Hyper_L"@),
        NamedKey::Super => None,
        NamedKey::Enter => Some("Return"@),
        NamedKey::Tab => Some("Tab"@),
        NamedKey::Space => Some("space"@),
        NamedKey::ArrowDown => Some("Down"@),
        NamedKey::ArrowLeft => Some("Left"@),
        NamedKey::ArrowRight => Some("Right"@),
        NamedKey::ArrowUp => Some("Up"@),
        NamedKey::End => Some("End"@),
        NamedKey::Home => Some("Home"@),
        NamedKey::PageDown => Some("Page_Down"@),
        NamedKey::PageUp => Some("Page_Up"@),
        NamedKey::Backspace => Some("BackSpace"@),
        NamedKey::Clear => Some("Clear"@),
        NamedKey::Copy => Some("XF86_Copy"@),
        NamedKey::CrSel => None,
        NamedKey::Cut => Some("XF86_Cut"@),
        NamedKey::Delete => Some("Delete"@),
        NamedKey::EraseEof => None,
        NamedKey::ExSel => None,
        NamedKey::Insert => Some("Insert"@),
        NamedKey::Paste => Some("XF86_Paste"@),
        NamedKey::Redo => Some("Redo"@),
        NamedKey::Undo => Some("Undo"@),
        NamedKey::Accept => None,
        NamedKey::Again => None,
        NamedKey::Attn => None,
        NamedKey::Cancel => Some("Cancel"@),
        NamedKey::ContextMenu => Some("Menu"@),
        NamedKey::Escape => Some("Escape"@),
        NamedKey::Execute => Some("Execute"@),
        NamedKey::Find => Some("Find"@),
        NamedKey::Help => Some("Help"@),
        NamedKey::Pause => Some("Pause"@),
        NamedKey::Play => None,
        NamedKey::Props => Some("SUN_Props"@),
        NamedKey::Select => Some("Select"@),
        NamedKey::ZoomIn => Some("XF86_ZoomIn"@),
        NamedKey::ZoomOut => Some("XF86_ZoomOut"@),
        NamedKey::BrightnessDown => Some("XF86_MonBrightnessDown"@),
        NamedKey::BrightnessUp => Some("XF86_MonBrightnessUp"@),
        NamedKey::Eject => Some("XF86_Eject"@),
        NamedKey::LogOff => Some("XF86_LogOff"@),
        NamedKey::Power => Some("SUN_PowerSwitch"@),
        NamedKey::PowerOff => Some("XF86_PowerOff"@),
        NamedKey::PrintScreen => Some("SUN_Print_Screen"@),
        NamedKey::Hibernate => Some("XF86_Hibernate"@),
        NamedKey::Standby => Some("XF86_Standby"@),
        NamedKey::WakeUp => Some("XF86_WakeUp"@),
        NamedKey::AllCandidates => Some("MultipleCandidate"@),
        NamedKey::Alphanumeric => None,
        NamedKey::CodeInput => None,
        NamedKey::Compose => Some("Multi_key"@),
        NamedKey::Convert => None,
        NamedKey::FinalMode => None,
        NamedKey::GroupFirst => Some("ISO_First_Group"@),
        NamedKey::GroupLast => Some("ISO_Last_Group"@),
        NamedKey::GroupNext => Some("ISO_Next_Group"@),
        NamedKey::GroupPrevious => Some("ISO_Prev_Group"@),
        NamedKey::ModeChange => Some("Mode_switch"@),
        NamedKey::NextCandidate => None,
        NamedKey::NonConvert => None,
        NamedKey::PreviousCandidate => Some("PreviousCandidate"@),
        NamedKey::Process => None,
        NamedKey::SingleCandidate => Some("SingleCandidate"@),
        NamedKey::HangulMode => Some("Hangul"@),
        NamedKey::HanjaMode => Some("Hangul_Hanja"@),
        NamedKey::JunjaMode => Some("Hangul_Jeonja"@),
        NamedKey::Eisu => Some("Eisu_toggle"@),
        NamedKey::Hankaku => Some("Hankaku"@),
        NamedKey::Hiragana => Some("Hiragana"@),
        NamedKey::HiraganaKatakana => Some("Hiragana_Katakana"@),
        NamedKey::KanaMode => Some("Kana_Lock"@),
        NamedKey::KanjiMode => Some("Kanji"@),
        NamedKey::Katakana => Some("Katakana"@),
        NamedKey::Romaji => Some("Romaji"@),
        NamedKey::Zenkaku => Some("Zenkaku"@),
        NamedKey::ZenkakuHankaku => Some("Zenkaku_Hankaku"@),
        NamedKey::Soft1 => None,
        NamedKey::Soft2 => None,
        NamedKey::Soft3 => None,
        NamedKey::Soft4 => None,
        NamedKey::ChannelDown => Some("XF86_ChannelDown"@),
        NamedKey::ChannelUp => Some("XF86_ChannelUp"@),
        NamedKey::Close => None,
        NamedKey::MailForward => Some("XF86_MailForward"@),
        NamedKey::MailReply => Some("XF86_Reply"@),
        NamedKey::MailSend => Some("XF86_Send"@),
        NamedKey::MediaClose => None,
        NamedKey::MediaFastForward => Some("XF86_AudioForward"@),
        NamedKey::MediaPause => Some("XF86_AudioPause"@),
        NamedKey::MediaPlay => None,
        NamedKey::MediaPlayPause => None,
        NamedKey::MediaRecord => Some("XF86_AudioRecord"@),
        NamedKey::MediaRewind => Some("XF86_AudioRewind"@),
        NamedKey::MediaStop => Some("XF86_AudioStop"@),
        NamedKey::MediaTrackNext => Some("XF86_AudioNext"@),
        NamedKey::MediaTrackPrevious => Some("XF86_AudioPrev"@),
        NamedKey::New => Some("XF86_New"@),
        NamedKey::Open => Some("XF86_Open"@),
        NamedKey::Print => Some("Print"@),
        NamedKey::Save => Some("XF86_Save"@),
        NamedKey::SpellCheck => Some("XF86_Spell"@),
        NamedKey::Key11 => Some("XF86_Numeric11"@),
        NamedKey::Key12 => Some("XF86_Numeric12"@),
        NamedKey::AudioBalanceLeft => None,
        NamedKey::AudioBalanceRight => None,
        NamedKey::AudioBassBoostDown => None,
        NamedKey::AudioBassBoostToggle => None,
        NamedKey::AudioBassBoostUp => None,
        NamedKey::AudioFaderFront => None,
        NamedKey::AudioFaderRear => None,
        NamedKey::AudioSurroundModeNext => None,
        NamedKey::AudioTrebleDown => None,
        NamedKey::AudioTrebleUp => None,
        NamedKey::AudioVolumeDown => Some("XF86_AudioLowerVolume"@),
        NamedKey::AudioVolumeUp => Some("XF86_AudioRaiseVolume"@),
        NamedKey::AudioVolumeMute => Some("XF86_AudioMute"@),
        NamedKey::MicrophoneToggle => None,
        NamedKey::MicrophoneVolumeDown => None,
        NamedKey::MicrophoneVolumeUp => None,
        NamedKey::MicrophoneVolumeMute => Some("XF86_AudioMicMute"@),
        NamedKey::SpeechCorrectionList => None,
        NamedKey::SpeechInputToggle => None,
        NamedKey::LaunchApplication1 => Some("XF86_MyComputer"@),
        NamedKey::LaunchApplication2 => Some("XF86_Calculator"@),
        NamedKey::LaunchCalendar => Some("XF86_Calendar"@),
        NamedKey::LaunchContacts => None,
        NamedKey::LaunchMail => Some("XF86_Mail"@),
        NamedKey::LaunchMediaPlayer => None,
        NamedKey::LaunchMusicPlayer => Some("XF86_AudioMedia"@),
        NamedKey::LaunchPhone => Some("XF86_Phone"@),
        NamedKey::LaunchScreenSaver => Some("XF86_ScreenSaver"@),
        NamedKey::LaunchSpreadsheet => None,
        NamedKey::LaunchWebBrowser => Some("XF86_WWW"@),
        NamedKey::LaunchWebCam => Some("XF86_WebCam"@),
        NamedKey::LaunchWordProcessor => Some("XF86_Word"@),
        NamedKey::BrowserBack => Some("XF86_Back"@),
        NamedKey::BrowserFavorites => Some("XF86_Favorites"@),
        NamedKey::BrowserForward => Some("XF86_Forward"@),
        NamedKey::BrowserHome => Some("XF86_HomePage"@),
        NamedKey::BrowserRefresh => Some("XF86_Refresh"@),
        NamedKey::BrowserSearch => Some("XF86_Search"@),
        NamedKey::BrowserStop => Some("XF86_Stop"@),
        NamedKey::AppSwitch => None,
        NamedKey::Call => None,
        NamedKey::Camera => None,
        NamedKey::CameraFocus => None,
        NamedKey::EndCall => None,
        NamedKey::GoBack => None,
        NamedKey::GoHome => None,
        NamedKey::HeadsetHook => None,
        NamedKey::LastNumberRedial => None,
        NamedKey::Notification => None,
        NamedKey::MannerMode => None,
        NamedKey::VoiceDial => None,
        NamedKey::TV => None,
        NamedKey::TV3DMode => None,
        NamedKey::TVAntennaCable => None,
        NamedKey::TVAudioDescription => None,
        NamedKey::TVAudioDescriptionMixDown => None,
        NamedKey::TVAudioDescriptionMixUp => None,
        NamedKey::TVContentsMenu => None,
        NamedKey::TVDataService => None,
        NamedKey::TVInput => None,
        NamedKey::TVInputComponent1 => None,
        NamedKey::TVInputComponent2 => None,
        NamedKey::TVInputComposite1 => None,
        NamedKey::TVInputComposite2 => None,
        NamedKey::TVInputHDMI1 => None,
        NamedKey::TVInputHDMI2 => None,
        NamedKey::TVInputHDMI3 => None,
        NamedKey::TVInputHDMI4 => None,
        NamedKey::TVInputVGA1 => None,
        NamedKey::TVMediaContext => None,
        NamedKey::TVNetwork => None,
        NamedKey::TVNumberEntry => None,
        NamedKey::TVPower => None,
        NamedKey::TVRadioService => None,
        NamedKey::TVSatellite => None,
        NamedKey::TVSatelliteBS => None,
        NamedKey::TVSatelliteCS => None,
        NamedKey::TVSatelliteToggle => None,
        NamedKey::TVTerrestrialAnalog => None,
        NamedKey::TVTerrestrialDigital => None,
        NamedKey::TVTimer => None,
        NamedKey::AVRInput => None,
        NamedKey::AVRPower => None,
        NamedKey::ColorF0Red => None,
        NamedKey::ColorF1Green => None,
        NamedKey::ColorF2Yellow => None,
        NamedKey::ColorF3Blue => None,
        NamedKey::ColorF4Grey => None,
        NamedKey::ColorF5Brown => None,
        NamedKey::ClosedCaptionToggle => None,
        NamedKey::Dimmer => None,
        NamedKey::DisplaySwap => None,
        NamedKey::DVR => None,
        NamedKey::Exit => None,
        NamedKey::FavoriteClear0 => None,
        NamedKey::FavoriteClear1 => None,
        NamedKey::FavoriteClear2 => None,
        NamedKey::FavoriteClear3 => None,
        NamedKey::FavoriteRecall0 => None,
        NamedKey::FavoriteRecall1 => None,
        NamedKey::FavoriteRecall2 => None,
        NamedKey::FavoriteRecall3 => None,
        NamedKey::FavoriteStore0 => None,
        NamedKey::FavoriteStore1 => None,
        NamedKey::FavoriteStore2 => None,
        NamedKey::FavoriteStore3 => None,
        NamedKey::Guide => None,
        NamedKey::GuideNextDay => None,
        NamedKey::GuidePreviousDay => None,
        NamedKey::Info => None,
        NamedKey::InstantReplay => None,
        NamedKey::Link => None,
        NamedKey::ListProgram => None,
        NamedKey::LiveContent => None,
        NamedKey::Lock => None,
        NamedKey::MediaApps => None,
        NamedKey::MediaAudioTrack => None,
        NamedKey::MediaLast => None,
        NamedKey::MediaSkipBackward => None,
        NamedKey::MediaSkipForward => None,
        NamedKey::MediaStepBackward => None,
        NamedKey::MediaStepForward => None,
        NamedKey::MediaTopMenu => Some("XF86_MediaTopMenu"@),
        NamedKey::NavigateIn => None,
        NamedKey::NavigateNext => None,
        NamedKey::NavigateOut => None,
        NamedKey::NavigatePrevious => None,
        NamedKey::NextFavoriteChannel => None,
        NamedKey::NextUserProfile => None,
        NamedKey::OnDemand => None,
        NamedKey::Pairing => None,
        NamedKey::PinPDown => None,
        NamedKey::PinPMove => None,
        NamedKey::PinPToggle => None,
        NamedKey::PinPUp => None,
        NamedKey::PlaySpeedDown => None,
        NamedKey::PlaySpeedReset => None,
        NamedKey::PlaySpeedUp => None,
        NamedKey::RandomToggle => Some("XF86_AudioRandomPlay"@),
        NamedKey::RcLowBattery => None,
        NamedKey::RecordSpeedNext => None,
        NamedKey::RfBypass => None,
        NamedKey::ScanChannelsToggle => None,
        NamedKey::ScreenModeNext => None,
        NamedKey::Settings => None,
        NamedKey::SplitScreenToggle => None,
        NamedKey::STBInput => None,
        NamedKey::STBPower => None,
        NamedKey::Subtitle => None,
        NamedKey::Teletext => None,
        NamedKey::VideoModeNext => None,
        NamedKey::Wink => None,
        NamedKey::ZoomToggle => None,
        NamedKey::F1 => Some("F1"@),
        NamedKey::F2 => Some("F2"@),
        NamedKey::F3 => Some("F3"@),
        NamedKey::F4 => Some("F4"@),
        NamedKey::F5 => Some("F5"@),
        NamedKey::F6 => Some("F6"@),
        NamedKey::F7 => Some("F7"@),
        NamedKey::F8 => Some("F8"@),
        NamedKey::F9 => Some("F9"@),
        NamedKey::F10 => Some("F10"@),
        NamedKey::F11 => Some("F11"@),
        NamedKey::F12 => Some("F12"@),
        NamedKey::F13 => Some("F13"@),
        NamedKey::F14 => Some("F14"@),
        NamedKey::F15 => Some("F15"@),
        NamedKey::F16 => Some("F16"@),
        NamedKey::F17 => Some("F17"@),
        NamedKey::F18 => Some("F18"@),
        NamedKey::F19 => Some("F19"@),
        NamedKey::F20 => Some("F20"@),
        NamedKey::F21 => Some("F21"@),
        NamedKey::F22 => Some("F22"@),
        NamedKey::F23 => Some("F23"@),
        NamedKey::F24 => Some("F24"@),
        NamedKey::F25 => Some("F25"@),
        NamedKey::F26 => Some("F26"@),
        NamedKey::F27 => Some("F27"@),
        NamedKey::F28 => Some("F28"@),
        NamedKey::F29 => Some("F29"@),
        NamedKey::F30 => Some("F30"@),
        NamedKey::F31 => Some("F31"@),
        NamedKey::F32 => Some("F32"@),
        NamedKey::F33 => Some("F33"@),
        NamedKey::F34 => Some("F34"@),
        NamedKey::F35 => Some("F35"@),
    }
}

/// The key-symbol name a named key maps to, or `None` for a key that has
/// no symbol and cannot be captured.
pub fn named_keysym(k: &NamedKey) -> (r: Option<String>)
    ensures
        match r {
            Some(s) => named_keysym_spec(*k) == Some(s@),
            None => named_keysym_spec(*k) is None,
        },
{
    match k {
        NamedKey::Alt => None,
        NamedKey::AltGraph => Some(String::from_str("SUN_AltGraph")),
        NamedKey::CapsLock => Some(String::from_str("Caps_Lock")),
        NamedKey::Control => None,
        NamedKey::Fn => Some(String::from_str("XF86_Fn")),
        NamedKey::FnLock => None,
        NamedKey::NumLock => Some(String::from_str("Num_Lock")),
        NamedKey::ScrollLock => Some(String::from_str("Scroll_Lock")),
        NamedKey::Shift => None,
        NamedKey::Symbol => None,
        NamedKey::SymbolLock => None,
        NamedKey::Meta => None,
        NamedKey::Hyper => Some(String::from_str("Hyper_L")),
        NamedKey::Super => None,
        NamedKey::Enter => Some(String::from_str("Return")),
        NamedKey::Tab => Some(String::from_str("Tab")),
        NamedKey::Space => Some(String::from_str("space")),
        NamedKey::ArrowDown => Some(String::from_str("Down")),
        NamedKey::ArrowLeft => Some(String::from_str("Left")),
        NamedKey::ArrowRight => Some(String::from_str("Right")),
        NamedKey::ArrowUp => Some(String::from_str("Up")),
        NamedKey::End => Some(String::from_str("End")),
        NamedKey::Home => Some(String::from_str("Home")),
        NamedKey::PageDown => Some(String::from_str("Page_Down")),
        NamedKey::PageUp => Some(String::from_str("Page_Up")),
        NamedKey::Backspace => Some(String::from_str("BackSpace")),
        NamedKey::Clear => Some(String::from_str("Clear")),
        NamedKey::Copy => Some(String::from_str("XF86_Copy")),
        NamedKey::CrSel => None,
        NamedKey::Cut => Some(String::from_str("XF86_Cut")),
        NamedKey::Delete => Some(String::from_str("Delete")),
        NamedKey::EraseEof => None,
        NamedKey::ExSel => None,
        NamedKey::Insert => Some(String::from_str("Insert")),
        NamedKey::Paste => Some(String::from_str("XF86_Paste")),
        NamedKey::Redo => Some(String::from_str("Redo")),
        NamedKey::Undo => Some(String::from_str("Undo")),
        NamedKey::Accept => None,
        NamedKey::Again => None,
        NamedKey::Attn => None,
        NamedKey::Cancel => Some(String::from_str("Cancel")),
        NamedKey::ContextMenu => Some(String::from_str("Menu")),
        NamedKey::Escape => Some(String::from_str("Escape")),
        NamedKey::Execute => Some(String::from_str("Execute")),
        NamedKey::Find => Some(String::from_str("Find")),
        NamedKey::Help => Some(String::from_str("Help")),
        NamedKey::Pause => Some(String::from_str("Pause")),
        NamedKey::Play => None,
        NamedKey::Props => Some(String::from_str("SUN_Props")),
        NamedKey::Select => Some(String::from_str("Select")),
        NamedKey::ZoomIn => Some(String::from_str("XF86_ZoomIn")),
        NamedKey::ZoomOut => Some(String::from_str("XF86_ZoomOut")),
        NamedKey::BrightnessDown => Some(String::from_str("XF86_MonBrightnessDown")),
        NamedKey::BrightnessUp => Some(String::from_str("XF86_MonBrightnessUp")),
        NamedKey::Eject => Some(String::from_str("XF86_Eject")),
        NamedKey::LogOff => Some(String::from_str("XF86_LogOff")),
        NamedKey::Power => Some(String::from_str("SUN_PowerSwitch")),
        NamedKey::PowerOff => Some(String::from_str("XF86_PowerOff")),
        NamedKey::PrintScreen => Some(String::from_str("SUN_Print_Screen")),
        NamedKey::Hibernate => Some(String::from_str("XF86_Hibernate")),
        NamedKey::Standby => Some(String::from_str("XF86_Standby")),
        NamedKey::WakeUp => Some(String::from_str("XF86_WakeUp")),
        NamedKey::AllCandidates => Some(String::from_str("MultipleCandidate")),
        NamedKey::Alphanumeric => None,
        NamedKey::CodeInput => None,
        NamedKey::Compose => Some(String::from_str("Multi_key")),
        NamedKey::Convert => None,
        NamedKey::FinalMode => None,
        NamedKey::GroupFirst => Some(String::from_str("ISO_First_Group")),
        NamedKey::GroupLast => Some(String::from_str("ISO_Last_Group")),
        NamedKey::GroupNext => Some(String::from_str("ISO_Next_Group")),
        NamedKey::GroupPrevious => Some(String::from_str("ISO_Prev_Group")),
        NamedKey::ModeChange => Some(String::from_str("Mode_switch")),
        NamedKey::NextCandidate => None,
        NamedKey::NonConvert => None,
        NamedKey::PreviousCandidate => Some(String::from_str("PreviousCandidate")),
        NamedKey::Process => None,
        NamedKey::SingleCandidate => Some(String::from_str("SingleCandidate")),
        NamedKey::HangulMode => Some(String::from_str("Hangul")),
        NamedKey::HanjaMode => Some(String::from_str("Hangul_Hanja")),
        NamedKey::JunjaMode => Some(String::from_str("Hangul_Jeonja")),
        NamedKey::Eisu => Some(String::from_str("Eisu_toggle")),
        NamedKey::Hankaku => Some(String::from_str("Hankaku")),
        NamedKey::Hiragana => Some(String::from_str("Hiragana")),
        NamedKey::HiraganaKatakana => Some(String::from_str("Hiragana_Katakana")),
        NamedKey::KanaMode => Some(String::from_str("Kana_Lock")),
        NamedKey::KanjiMode => Some(String::from_str("Kanji")),
        NamedKey::Katakana => Some(String::from_str("Katakana")),
        NamedKey::Romaji => Some(String::from_str("Romaji")),
        NamedKey::Zenkaku => Some(String::from_str("Zenkaku")),
        NamedKey::ZenkakuHankaku => Some(String::from_str("Zenkaku_Hankaku")),
        NamedKey::Soft1 => None,
        NamedKey::Soft2 => None,
        NamedKey::Soft3 => None,
        NamedKey::Soft4 => None,
        NamedKey::ChannelDown => Some(String::from_str("XF86_ChannelDown")),
        NamedKey::ChannelUp => Some(String::from_str("XF86_ChannelUp")),
        NamedKey::Close => None,
        NamedKey::MailForward => Some(String::from_str("XF86_MailForward")),
        NamedKey::MailReply => Some(String::from_str("XF86_Reply")),
        NamedKey::MailSend => Some(String::from_str("XF86_Send")),
        NamedKey::MediaClose => None,
        NamedKey::MediaFastForward => Some(String::from_str("XF86_AudioForward")),
        NamedKey::MediaPause => Some(String::from_str("XF86_AudioPause")),
        NamedKey::MediaPlay => None,
        NamedKey::MediaPlayPause => None,
        NamedKey::MediaRecord => Some(String::from_str("XF86_AudioRecord")),
        NamedKey::MediaRewind => Some(String::from_str("XF86_AudioRewind")),
        NamedKey::MediaStop => Some(String::from_str("XF86_AudioStop")),
        NamedKey::MediaTrackNext => Some(String::from_str("XF86_AudioNext")),
        NamedKey::MediaTrackPrevious => Some(String::from_str("XF86_AudioPrev")),
        NamedKey::New => Some(String::from_str("XF86_New")),
        NamedKey::Open => Some(String::from_str("XF86_Open")),
        NamedKey::Print => Some(String::from_str("Print")),
        NamedKey::Save => Some(String::from_str("XF86_Save")),
        NamedKey::SpellCheck => Some(String::from_str("XF86_Spell")),
        NamedKey::Key11 => Some(String::from_str("XF86_Numeric11")),
        NamedKey::Key12 => Some(String::from_str("XF86_Numeric12")),
        NamedKey::AudioBalanceLeft => None,
        NamedKey::AudioBalanceRight => None,
        NamedKey::AudioBassBoostDown => None,
        NamedKey::AudioBassBoostToggle => None,
        NamedKey::AudioBassBoostUp => None,
        NamedKey::AudioFaderFront => None,
        NamedKey::AudioFaderRear => None,
        NamedKey::AudioSurroundModeNext => None,
        NamedKey::AudioTrebleDown => None,
        NamedKey::AudioTrebleUp => None,
        NamedKey::AudioVolumeDown => Some(String::from_str("XF86_AudioLowerVolume")),
        NamedKey::AudioVolumeUp => Some(String::from_str("XF86_AudioRaiseVolume")),
        NamedKey::AudioVolumeMute => Some(String::from_str("XF86_AudioMute")),
        NamedKey::MicrophoneToggle => None,
        NamedKey::MicrophoneVolumeDown => None,
        NamedKey::MicrophoneVolumeUp => None,
        NamedKey::MicrophoneVolumeMute => Some(String::from_str("XF86_AudioMicMute")),
        NamedKey::SpeechCorrectionList => None,
        NamedKey::SpeechInputToggle => None,
        NamedKey::LaunchApplication1 => Some(String::from_str("XF86_MyComputer")),
        NamedKey::LaunchApplication2 => Some(String::from_str("XF86_Calculator")),
        NamedKey::LaunchCalendar => Some(String::from_str("XF86_Calendar")),
        NamedKey::LaunchContacts => None,
        NamedKey::LaunchMail => Some(String::from_str("XF86_Mail")),
        NamedKey::LaunchMediaPlayer => None,
        NamedKey::LaunchMusicPlayer => Some(String::from_str("XF86_AudioMedia")),
        NamedKey::LaunchPhone => Some(String::from_str("XF86_Phone")),
        NamedKey::LaunchScreenSaver => Some(String::from_str("XF86_ScreenSaver")),
        NamedKey::LaunchSpreadsheet => None,
        NamedKey::LaunchWebBrowser => Some(String::from_str("XF86_WWW")),
        NamedKey::LaunchWebCam => Some(String::from_str("XF86_WebCam")),
        NamedKey::LaunchWordProcessor => Some(String::from_str("XF86_Word")),
        NamedKey::BrowserBack => Some(String::from_str("XF86_Back")),
        NamedKey::BrowserFavorites => Some(String::from_str("XF86_Favorites")),
        NamedKey::BrowserForward => Some(String::from_str("XF86_Forward")),
        NamedKey::BrowserHome => Some(String::from_str("XF86_HomePage")),
        NamedKey::BrowserRefresh => Some(String::from_str("XF86_Refresh")),
        NamedKey::BrowserSearch => Some(String::from_str("XF86_Search")),
        NamedKey::BrowserStop => Some(String::from_str("XF86_Stop")),
        NamedKey::AppSwitch => None,
        NamedKey::Call => None,
        NamedKey::Camera => None,
        NamedKey::CameraFocus => None,
        NamedKey::EndCall => None,
        NamedKey::GoBack => None,
        NamedKey::GoHome => None,
        NamedKey::HeadsetHook => None,
        NamedKey::LastNumberRedial => None,
        NamedKey::Notification => None,
        NamedKey::MannerMode => None,
        NamedKey::VoiceDial => None,
        NamedKey::TV => None,
        NamedKey::TV3DMode => None,
        NamedKey::TVAntennaCable => None,
        NamedKey::TVAudioDescription => None,
        NamedKey::TVAudioDescriptionMixDown => None,
        NamedKey::TVAudioDescriptionMixUp => None,
        NamedKey::TVContentsMenu => None,
        NamedKey::TVDataService => None,
        NamedKey::TVInput => None,
        NamedKey::TVInputComponent1 => None,
        NamedKey::TVInputComponent2 => None,
        NamedKey::TVInputComposite1 => None,
        NamedKey::TVInputComposite2 => None,
        NamedKey::TVInputHDMI1 => None,
        NamedKey::TVInputHDMI2 => None,
        NamedKey::TVInputHDMI3 => None,
        NamedKey::TVInputHDMI4 => None,
        NamedKey::TVInputVGA1 => None,
        NamedKey::TVMediaContext => None,
        NamedKey::TVNetwork => None,
        NamedKey::TVNumberEntry => None,
        NamedKey::TVPower => None,
        NamedKey::TVRadioService => None,
        NamedKey::TVSatellite => None,
        NamedKey::TVSatelliteBS => None,
        NamedKey::TVSatelliteCS => None,
        NamedKey::TVSatelliteToggle => None,
        NamedKey::TVTerrestrialAnalog => None,
        NamedKey::TVTerrestrialDigital => None,
        NamedKey::TVTimer => None,
        NamedKey::AVRInput => None,
        NamedKey::AVRPower => None,
        NamedKey::ColorF0Red => None,
        NamedKey::ColorF1Green => None,
        NamedKey::ColorF2Yellow => None,
        NamedKey::ColorF3Blue => None,
        NamedKey::ColorF4Grey => None,
        NamedKey::ColorF5Brown => None,
        NamedKey::ClosedCaptionToggle => None,
        NamedKey::Dimmer => None,
        NamedKey::DisplaySwap => None,
        NamedKey::DVR => None,
        NamedKey::Exit => None,
        NamedKey::FavoriteClear0 => None,
        NamedKey::FavoriteClear1 => None,
        NamedKey::FavoriteClear2 => None,
        NamedKey::FavoriteClear3 => None,
        NamedKey::FavoriteRecall0 => None,
        NamedKey::FavoriteRecall1 => None,
        NamedKey::FavoriteRecall2 => None,
        NamedKey::FavoriteRecall3 => None,
        NamedKey::FavoriteStore0 => None,
        NamedKey::FavoriteStore1 => None,
        NamedKey::FavoriteStore2 => None,
        NamedKey::FavoriteStore3 => None,
        NamedKey::Guide => None,
        NamedKey::GuideNextDay => None,
        NamedKey::GuidePreviousDay => None,
        NamedKey::Info => None,
        NamedKey::InstantReplay => None,
        NamedKey::Link => None,
        NamedKey::ListProgram => None,
        NamedKey::LiveContent => None,
        NamedKey::Lock => None,
        NamedKey::MediaApps => None,
        NamedKey::MediaAudioTrack => None,
        NamedKey::MediaLast => None,
        NamedKey::MediaSkipBackward => None,
        NamedKey::MediaSkipForward => None,
        NamedKey::MediaStepBackward => None,
        NamedKey::MediaStepForward => None,
        NamedKey::MediaTopMenu => Some(String::from_str("XF86_MediaTopMenu")),
        NamedKey::NavigateIn => None,
        NamedKey::NavigateNext => None,
        NamedKey::NavigateOut => None,
        NamedKey::NavigatePrevious => None,
        NamedKey::NextFavoriteChannel => None,
        NamedKey::NextUserProfile => None,
        NamedKey::OnDemand => None,
        NamedKey::Pairing => None,
        NamedKey::PinPDown => None,
        NamedKey::PinPMove => None,
        NamedKey::PinPToggle => None,
        NamedKey::PinPUp => None,
        NamedKey::PlaySpeedDown => None,
        NamedKey::PlaySpeedReset => None,
        NamedKey::PlaySpeedUp => None,
        NamedKey::RandomToggle => Some(String::from_str("XF86_AudioRandomPlay")),
        NamedKey::RcLowBattery => None,
        NamedKey::RecordSpeedNext => None,
        NamedKey::RfBypass => None,
        NamedKey::ScanChannelsToggle => None,
        NamedKey::ScreenModeNext => None,
        NamedKey::Settings => None,
        NamedKey::SplitScreenToggle => None,
        NamedKey::STBInput => None,
        NamedKey::STBPower => None,
        NamedKey::Subtitle => None,
        NamedKey::Teletext => None,
        NamedKey::VideoModeNext => None,
        NamedKey::Wink => None,
        NamedKey::ZoomToggle => None,
        NamedKey::F1 => Some(String::from_str("F1")),
        NamedKey::F2 => Some(String::from_str("F2")),
        NamedKey::F3 => Some(String::from_str("F3")),
        NamedKey::F4 => Some(String::from_str("F4")),
        NamedKey::F5 => Some(String::from_str("F5")),
        NamedKey::F6 => Some(String::from_str("F6")),
        NamedKey::F7 => Some(String::from_str("F7")),
        NamedKey::F8 => Some(String::from_str("F8")),
        NamedKey::F9 => Some(String::from_str("F9")),
        NamedKey::F10 => Some(String::from_str("F10")),
        NamedKey::F11 => Some(String::from_str("F11")),
        NamedKey::F12 => Some(String::from_str("F12")),
        NamedKey::F13 => Some(String::from_str("F13")),
        NamedKey::F14 => Some(String::from_str("F14")),
        NamedKey::F15 => Some(String::from_str("F15")),
        NamedKey::F16 => Some(String::from_str("F16")),
        NamedKey::F17 => Some(String::from_str("F17")),
        NamedKey::F18 => Some(String::from_str("F18")),
        NamedKey::F19 => Some(String::from_str("F19")),
        NamedKey::F20 => Some(String::from_str("F20")),
        NamedKey::F21 => Some(String::from_str("F21")),
        NamedKey::F22 => Some(String::from_str("F22")),
        NamedKey::F23 => Some(String::from_str("F23")),
        NamedKey::F24 => Some(String::from_str("F24")),
        NamedKey::F25 => Some(String::from_str("F25")),
        NamedKey::F26 => Some(String::from_str("F26")),
        NamedKey::F27 => Some(String::from_str("F27")),
        NamedKey::F28 => Some(String::from_str("F28")),
        NamedKey::F29 => Some(String::from_str("F29")),
        NamedKey::F30 => Some(String::from_str("F30")),
        NamedKey::F31 => Some(String::from_str("F31")),
        NamedKey::F32 => Some(String::from_str("F32")),
        NamedKey::F33 => Some(String::from_str("F33")),
        NamedKey::F34 => Some(String::from_str("F34")),
        NamedKey::F35 => Some(String::from_str("F35")),
    }
}

} // verus!
