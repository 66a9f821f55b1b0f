//! What the display shows of the state.

use crate::api::EventView;
use crate::app::{App, AppView, TranslateState};
use crate::text::{contains, occurs, same, starts_with};
use vstd::prelude::*;

verus! {

/// The tone in which a message is shown.
#[derive(Debug, Clone, Copy, PartialEq, Eq, Structural)]
pub enum Tone {
    Error,
    Success,
    Muted,
}

/// What stands in the place of the translation: a hint as long as there is none.
#[derive(Debug)]
pub enum TargetPanel<'a> {
    Hint(&'static str),
    Text(&'a str),
}

/// The tone of the message in the status line.
pub open spec fn status_tone_of(message: Seq<char>) -> Tone {
    if "错误"@.is_prefix_of(message) {
        Tone::Error
    } else if message == "翻译完成"@ || occurs("复制"@, message) {
        Tone::Success
    } else {
        Tone::Muted
    }
}

/// The tone of the message on a connection test.
pub open spec fn test_tone_of(message: Seq<char>) -> Tone {
    if "✓"@.is_prefix_of(message) {
        Tone::Success
    } else if "✗"@.is_prefix_of(message) {
        Tone::Error
    } else {
        Tone::Muted
    }
}

impl App {
    /// The tone of the message in the status line.
    pub fn status_tone(&self) -> (tone: Tone)
        ensures
            tone == status_tone_of(self.status_msg@),
    {
        let message: &str = self.status_msg.as_str();
        if starts_with(message, "错误") {
            Tone::Error
        } else if same(message, "翻译完成") || contains(message, "复制") {
            Tone::Success
        } else {
            Tone::Muted
        }
    }

    /// The tone of the message on a connection test.
    pub fn test_tone(&self) -> (tone: Tone)
        ensures
            tone == test_tone_of(self.settings_test_status@),
    {
        let message: &str = self.settings_test_status.as_str();
        if starts_with(message, "✓") {
            Tone::Success
        } else if starts_with(message, "✗") {
            Tone::Error
        } else {
            Tone::Muted
        }
    }

    /// Whether a translation is running.
    pub fn is_translating(&self) -> (b: bool)
        ensures
            b == (self.translate_state == TranslateState::Running),
    {
        self.translate_state == TranslateState::Running
    }

    /// Whether the connection is being tried out.
    pub fn is_testing(&self) -> (b: bool)
        ensures
            b == (self.translate_state == TranslateState::Testing),
    {
        self.translate_state == TranslateState::Testing
    }

    /// What the button says that asks for a translation.
    pub fn translate_label(&self) -> (label: &'static str)
        ensures
            label@ == if self.translate_state == TranslateState::Running {
                "翻译中..."@
            } else {
                "翻译  Ctrl+Enter"@
            },
    {
        if self.is_translating() {
            "翻译中..."
        } else {
            "翻译  Ctrl+Enter"
        }
    }

    /// What the button says that asks for a connection test.
    pub fn test_label(&self) -> (label: &'static str)
        ensures
            label@ == if self.translate_state == TranslateState::Testing {
                "测试中..."@
            } else {
                "测试连接"@
            },
    {
        if self.is_testing() {
            "测试中..."
        } else {
            "测试连接"
        }
    }

    /// What stands in the place of the translation.
    pub fn target_panel(&self) -> (panel: TargetPanel<'_>)
        ensures
            self.target_text@.len() == 0 ==> (panel matches TargetPanel::Hint(h) && h@
                == "翻译结果将在这里显示..."@),
            self.target_text@.len() > 0 ==> (panel matches TargetPanel::Text(t) && t@
                == self.target_text@),
    {
        if self.target_text.as_str().is_empty() {
            TargetPanel::Hint("翻译结果将在这里显示...")
        } else {
            TargetPanel::Text(self.target_text.as_str())
        }
    }
}

/// The font files that are looked for, in this order, to show Chinese, Japanese and Korean text.
pub const CJK_FONT_PATHS: [&'static str; 4] = [
    "/System/Library/Fonts/PingFang.ttc",
    "/System/Library/Fonts/STHeiti Light.ttc",
    "/usr/share/fonts/truetype/noto/NotoSansCJK-Regular.ttc",
    "C:\\Windows\\Fonts\\msyh.ttc",
];

/// The font file to try when the first `failed` of them could not be read; none is left after the
/// last.
pub fn next_font_path(failed: usize) -> (path: Option<&'static str>)
    ensures
        path is Some <==> failed < 4,
        path matches Some(p) ==> p@ == CJK_FONT_PATHS@[failed as int]@,
{
    if failed < 4 {
        Some(CJK_FONT_PATHS[failed])
    } else {
        None
    }
}

/// A translation that fails is shown as an error, whatever its message says, and one that is
/// complete as a success.
pub proof fn lemma_end_tones(s: AppView, message: Seq<char>)
    ensures
        status_tone_of(s.with_event(EventView::Error(message)).status_msg) == Tone::Error,
        status_tone_of(s.with_event(EventView::Done).status_msg) == Tone::Success,
{
    reveal_strlit("错误");
    reveal_strlit("错误: ");
    reveal_strlit("翻译完成");
    let m = "错误: "@ + message;
    assert(m.subrange(0, 2) == "错误"@);
    assert("翻译完成"@.subrange(0, 2)[0] != "错误"@[0]);
}

/// A copied translation is shown as a success.
pub proof fn lemma_copied_tone(s: AppView)
    ensures
        status_tone_of(s.copied().status_msg) == Tone::Success,
{
    reveal_strlit("错误");
    reveal_strlit("复制");
    reveal_strlit("已复制到剪贴板");
    let m = "已复制到剪贴板"@;
    assert(m.subrange(0, 2)[0] != "错误"@[0]);
    assert(m.skip(1).subrange(0, 2) == "复制"@);
    assert("复制"@.is_prefix_of(m.skip(1)));
}

/// The result of an awaited connection test is shown as a success exactly if it is one, and
/// otherwise as an error.
pub proof fn lemma_test_tones(s: AppView, result: Result<Seq<char>, Seq<char>>)
    requires
        s.test_open,
    ensures
        test_tone_of(s.tested(Some(result)).settings_test_status) == if result is Ok {
            Tone::Success
        } else {
            Tone::Error
        },
{
    reveal_strlit("✓");
    reveal_strlit("✗");
    reveal_strlit("✓ ");
    reveal_strlit("✗ ");
    let m = s.tested(Some(result)).settings_test_status;
    if result is Ok {
        assert(m.subrange(0, 1) == "✓"@);
    } else {
        assert(m.subrange(0, 1) == "✗"@);
        assert(m.subrange(0, 1)[0] != "✓"@[0]);
    }
}

} // verus!
