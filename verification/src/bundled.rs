//! The theme bundled with GG.
use vstd::prelude::*;

verus! {

/// The bundled default theme, in the TOML form that `parse_theme` reads.
pub const DEFAULT_THEME: &'static str = "[light.colors]
primary = \"#007AFF\"
primaryContent = \"#ffffff\"
background = \"#ffffff\"
surfaceDeep = \"#f2f2f4\"
surface = \"#f7f7f8\"
surfaceAlt = \"#ececef\"
surfaceStrong = \"#e1e1e6\"
foreground = \"#1d1d1f\"
foregroundMuted = \"#6e6e73\"
border = \"#d2d2d7\"
immutableStroke = \"#8e8e93\"
immutableFill = \"#e5e5ea\"
mutableStroke = \"$colors.primary\"
mutableFill = \"#ffffff\"
workingCopyStroke = \"#34c759\"
workingCopyFill = \"#d8f5df\"
conflictStroke = \"#ff3b30\"
conflictFill = \"#ffe1df\"

[light.text]
familyUi = \"system-ui, -apple-system, sans-serif\"
familyMono = \"ui-monospace, monospace\"
sizeUi = \"13px\"

[light.shadows]
shadowSm = \"0 1px 2px rgba(0, 0, 0, 0.12)\"
shadowMd = \"0 2px 8px rgba(0, 0, 0, 0.16)\"

[light.components]
buttonHeight = \"24px\"
buttonBackground = \"$colors.primary\"
buttonForeground = \"$colors.primaryContent\"
buttonShadow = \"$shadows.shadowSm\"
buttonFont = \"$text.familyUi\"

[dark.colors]
primary = \"#8aadf4\"
primaryContent = \"#181926\"
background = \"#24273a\"
surfaceDeep = \"#181926\"
surface = \"#1e2030\"
surfaceAlt = \"#363a4f\"
surfaceStrong = \"#494d64\"
foreground = \"#cad3f5\"
foregroundMuted = \"#a5adcb\"
border = \"#494d64\"
immutableStroke = \"#6e738d\"
immutableFill = \"#363a4f\"
mutableStroke = \"$colors.primary\"
mutableFill = \"#24273a\"
workingCopyStroke = \"#a6da95\"
workingCopyFill = \"#2e3b2f\"
conflictStroke = \"#ed8796\"
conflictFill = \"#45293a\"

[dark.text]
familyUi = \"system-ui, -apple-system, sans-serif\"
familyMono = \"ui-monospace, monospace\"
sizeUi = \"13px\"

[dark.shadows]
shadowSm = \"0 1px 2px rgba(0, 0, 0, 0.4)\"
shadowMd = \"0 2px 8px rgba(0, 0, 0, 0.5)\"

[dark.components]
buttonHeight = \"24px\"
buttonBackground = \"$colors.primary\"
buttonForeground = \"$colors.primaryContent\"
buttonShadow = \"$shadows.shadowSm\"
buttonFont = \"$text.familyUi\"
";

}
