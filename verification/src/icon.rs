//! The tray icon as the user interface receives it.

use vstd::prelude::*;

use crate::text;

verus! {

/// Shown where neither the icon that the application supplied nor the icon of its executable
/// can be rendered. Percent-escaped SVG.
pub const GENERIC_TRAY_ICON: &'static str = "data:image/svg+xml;utf8,<svg xmlns='http://www.w3.org/2000/svg' viewBox='0 0 32 32'><rect x='5' y='5' width='22' height='22' rx='6' fill='%233a4254'/><circle cx='16' cy='16' r='5' fill='%23aeb6c7'/></svg>";

/// One tray icon.
#[derive(Clone, Debug)]
pub struct TrayIcon {
    /// Stable key: the owner and the icon id as `"{owner_hwnd}:{uid}"`.
    pub id: String,
    /// The window that owns the icon and receives forwarded clicks.
    pub owner_hwnd: isize,
    /// The id that the owner gave the icon.
    pub uid: u32,
    /// The message that the owner wants for events on this icon.
    pub callback_msg: u32,
    /// Notify-icon protocol version: 4, 3 (legacy) or 0 (unknown).
    pub version: u32,
    /// Hover text.
    pub tooltip: String,
    /// Path of the owner's executable.
    pub exe_path: String,
    /// Process id of the owner.
    pub pid: u32,
    /// `data:` URL of the picture.
    pub icon: String,
}

/// The value of a `TrayIcon`.
#[verifier::ext_equal]
pub struct TrayIconView {
    pub id: Seq<char>,
    pub owner_hwnd: isize,
    pub uid: u32,
    pub callback_msg: u32,
    pub version: u32,
    pub tooltip: Seq<char>,
    pub exe_path: Seq<char>,
    pub pid: u32,
    pub icon: Seq<char>,
}

impl View for TrayIcon {
    type V = TrayIconView;

    open spec fn view(&self) -> TrayIconView {
        TrayIconView {
            id: self.id@,
            owner_hwnd: self.owner_hwnd,
            uid: self.uid,
            callback_msg: self.callback_msg,
            version: self.version,
            tooltip: self.tooltip@,
            exe_path: self.exe_path@,
            pid: self.pid,
            icon: self.icon@,
        }
    }
}

/// The values of a list of icons.
pub open spec fn icon_views(icons: Seq<TrayIcon>) -> Seq<TrayIconView> {
    icons.map_values(|icon: TrayIcon| icon@)
}

/// The key of an icon: owner and id in decimal, with a colon between them.
pub open spec fn id_text(owner: isize, uid: u32) -> Seq<char> {
    text::decimal(owner as int).push(':') + text::decimal(uid as int)
}

/// Formats the key of an icon.
pub fn make_id(owner: isize, uid: u32) -> (id: String)
    ensures
        id@ == id_text(owner, uid),
{
    let mut id = String::new();
    text::push_decimal(&mut id, owner as i128);
    assert(id@ =~= text::decimal(owner as int));
    id.push(':');
    text::push_decimal(&mut id, uid as i128);
    id
}

/// Two icons have the same key only if owner and id agree.
pub proof fn id_is_unique(owner1: isize, uid1: u32, owner2: isize, uid2: u32)
    requires
        id_text(owner1, uid1) == id_text(owner2, uid2),
    ensures
        owner1 == owner2,
        uid1 == uid2,
{
    let a1 = text::decimal(owner1 as int);
    let a2 = text::decimal(owner2 as int);
    let b1 = text::decimal(uid1 as int);
    let b2 = text::decimal(uid2 as int);
    let id1 = id_text(owner1, uid1);
    let id2 = id_text(owner2, uid2);
    text::decimal_has_no_colon(owner1 as int);
    text::decimal_has_no_colon(owner2 as int);
    assert(id1[a1.len() as int] == ':');
    assert(id2[a2.len() as int] == ':');
    if a1.len() < a2.len() {
        assert(id2[a1.len() as int] == a2[a1.len() as int]);
    }
    if a2.len() < a1.len() {
        assert(id1[a2.len() as int] == a1[a2.len() as int]);
    }
    assert(id1.take(a1.len() as int) =~= a1);
    assert(id2.take(a2.len() as int) =~= a2);
    assert(id1.skip(a1.len() as int + 1) =~= b1);
    assert(id2.skip(a2.len() as int + 1) =~= b2);
    text::decimal_injective(owner1 as int, owner2 as int);
    text::decimal_injective(uid1 as int, uid2 as int);
}

/// The line that a diagnostic dump prints for an icon, after a module tag and with the tooltip as
/// it is quoted.
pub open spec fn icon_line_with(tag: Seq<char>, ic: TrayIconView, quoted: Seq<char>) -> Seq<char> {
    tag + " icon id="@ + ic.id + " hwnd=0x"@ + text::hexadecimal(text::word_bits(ic.owner_hwnd))
        + " uid="@ + text::decimal(ic.uid as int) + " cb=0x"@ + text::hexadecimal(
        ic.callback_msg as nat,
    ) + " ver="@ + text::decimal(ic.version as int) + " pid="@ + text::decimal(ic.pid as int)
        + " exe="@ + ic.exe_path + " tooltip="@ + quoted + " iconBytes="@ + text::decimal(
        (vstd::utf8::encode_utf8(ic.icon).len() as usize) as int,
    )
}

/// The line that a diagnostic dump prints for an icon, after a module tag.
pub open spec fn icon_line_text(tag: Seq<char>, ic: TrayIconView) -> Seq<char> {
    icon_line_with(tag, ic, text::debug_text(ic.tooltip))
}

/// Formats the line of an icon whose tooltip is quoted already.
pub fn quoted_icon_line(tag: &str, ic: &TrayIcon, quoted: &str) -> (line: String)
    ensures
        line@ == icon_line_with(tag@, ic@, quoted@),
{
    let mut line = tag.to_owned();
    line.append(" icon id=");
    line.append(ic.id.as_str());
    line.append(" hwnd=0x");
    text::push_hex_handle(&mut line, ic.owner_hwnd);
    line.append(" uid=");
    text::push_decimal(&mut line, ic.uid as i128);
    line.append(" cb=0x");
    text::push_hex(&mut line, ic.callback_msg as u64);
    line.append(" ver=");
    text::push_decimal(&mut line, ic.version as i128);
    line.append(" pid=");
    text::push_decimal(&mut line, ic.pid as i128);
    line.append(" exe=");
    line.append(ic.exe_path.as_str());
    line.append(" tooltip=");
    line.append(quoted);
    line.append(" iconBytes=");
    text::push_decimal(&mut line, ic.icon.as_str().len() as i128);
    line
}

/// Formats the line of an icon in a diagnostic dump.
pub fn icon_line(tag: &str, ic: &TrayIcon) -> (line: String)
    ensures
        line@ == icon_line_text(tag@, ic@),
{
    let quoted = text::debug_quoted(ic.tooltip.as_str());
    quoted_icon_line(tag, ic, quoted.as_str())
}

/// A diagnostic dump: the lines for the log and the answer to the caller.
#[derive(Debug)]
pub struct Report {
    pub lines: Vec<String>,
    pub summary: String,
}

/// The texts of a list of strings.
pub open spec fn line_texts(lines: Seq<String>) -> Seq<Seq<char>> {
    lines.map_values(|line: String| line@)
}

/// The lines for a list of icons.
pub open spec fn icon_lines(tag: Seq<char>, icons: Seq<TrayIconView>) -> Seq<Seq<char>> {
    icons.map_values(|ic: TrayIconView| icon_line_text(tag, ic))
}

/// Appends the line of each icon.
pub fn push_icon_lines(lines: &mut Vec<String>, tag: &str, icons: &Vec<TrayIcon>)
    ensures
        line_texts(final(lines)@) == line_texts(old(lines)@) + icon_lines(
            tag@,
            icon_views(icons@),
        ),
{
    let ghost start = line_texts(lines@);
    let ghost wanted = icon_lines(tag@, icon_views(icons@));
    let mut i: usize = 0;
    assert(line_texts(lines@) =~= start + wanted.take(0));
    while i < icons.len()
        invariant
            i <= icons.len(),
            wanted == icon_lines(tag@, icon_views(icons@)),
            line_texts(lines@) == start + wanted.take(i as int),
        decreases icons.len() - i,
    {
        let ghost before = lines@;
        let line = icon_line(tag, &icons[i]);
        lines.push(line);
        proof {
            assert(wanted[i as int] == icon_line_text(tag@, icons@[i as int]@));
            assert(line_texts(lines@) =~= line_texts(before).push(line@));
            assert(start + wanted.take(i as int + 1) =~= (start + wanted.take(i as int)).push(
                wanted[i as int],
            ));
        }
        i += 1;
    }
    assert(wanted.take(i as int) =~= wanted);
}

/// The placeholder picture is never an empty URL.
pub proof fn generic_icon_is_not_empty()
    ensures
        GENERIC_TRAY_ICON@.len() > 0,
{
    reveal_strlit(
        "data:image/svg+xml;utf8,<svg xmlns='http://www.w3.org/2000/svg' viewBox='0 0 32 32'><rect x='5' y='5' width='22' height='22' rx='6' fill='%233a4254'/><circle cx='16' cy='16' r='5' fill='%23aeb6c7'/></svg>",
    );
}

/// The text reads as an owner, the only colon, and an id, with the colon at `k`.
pub open spec fn reads_as(id: Seq<char>, k: int, owner: isize, uid: u32) -> bool {
    &&& 0 < k < id.len()
    &&& id[k] == ':'
    &&& text::decimal_value(id.take(k)) == owner
    &&& text::decimal_value(id.skip(k + 1)) == uid
    &&& forall|j: int| 0 <= j < id.len() && j != k ==> id[j] != ':'
}

/// A key is the owner and the id, both readable, with the only colon between them.
pub proof fn ids_read_back(owner: isize, uid: u32)
    ensures
        exists|k: int| reads_as(id_text(owner, uid), k, owner, uid),
{
    let id = id_text(owner, uid);
    let a = text::decimal(owner as int);
    let b = text::decimal(uid as int);
    let k = a.len() as int;
    text::decimals_read_back(owner as int);
    text::decimals_read_back(uid as int);
    text::decimal_has_no_colon(owner as int);
    text::decimal_has_no_colon(uid as int);
    assert(id[k] == ':');
    assert(id.take(k) =~= a);
    assert(id.skip(k + 1) =~= b);
    assert forall|j: int| 0 <= j < id.len() && j != k implies id[j] != ':' by {
        if j < k {
            assert(id[j] == a[j]);
        } else {
            assert(id[j] == b[j - k - 1]);
        }
    }
    assert(reads_as(id, k, owner, uid));
}

/// The line of an icon shows the module's tag and every field of the icon under its name; the
/// picture is shown by its length.
pub proof fn icon_lines_show_every_field(tag: Seq<char>, ic: TrayIconView)
    ensures
        ({
            let line = icon_line_text(tag, ic);
            &&& line.take(tag.len() as int) == tag
            &&& text::shows(line, " icon id="@ + ic.id)
            &&& text::shows(line, " hwnd=0x"@ + text::hexadecimal(text::word_bits(ic.owner_hwnd)))
            &&& text::shows(line, " uid="@ + text::decimal(ic.uid as int))
            &&& text::shows(line, " cb=0x"@ + text::hexadecimal(ic.callback_msg as nat))
            &&& text::shows(line, " ver="@ + text::decimal(ic.version as int))
            &&& text::shows(line, " pid="@ + text::decimal(ic.pid as int))
            &&& text::shows(line, " exe="@ + ic.exe_path)
            &&& text::shows(line, " tooltip="@ + text::debug_text(ic.tooltip))
            &&& text::shows(
                line,
                " iconBytes="@ + text::decimal(
                    (vstd::utf8::encode_utf8(ic.icon).len() as usize) as int,
                ),
            )
        }),
{
    let l1 = tag + " icon id="@ + ic.id;
    let hwnd = text::hexadecimal(text::word_bits(ic.owner_hwnd));
    let l2 = l1 + " hwnd=0x"@ + hwnd;
    let l3 = l2 + " uid="@ + text::decimal(ic.uid as int);
    let l4 = l3 + " cb=0x"@ + text::hexadecimal(ic.callback_msg as nat);
    let l5 = l4 + " ver="@ + text::decimal(ic.version as int);
    let l6 = l5 + " pid="@ + text::decimal(ic.pid as int);
    let l7 = l6 + " exe="@ + ic.exe_path;
    let l8 = l7 + " tooltip="@ + text::debug_text(ic.tooltip);
    let bytes = text::decimal((vstd::utf8::encode_utf8(ic.icon).len() as usize) as int);
    text::lemma_appended(tag, " icon id="@, ic.id);
    text::lemma_appended(l1, " hwnd=0x"@, hwnd);
    text::lemma_appended(l2, " uid="@, text::decimal(ic.uid as int));
    text::lemma_appended(l3, " cb=0x"@, text::hexadecimal(ic.callback_msg as nat));
    text::lemma_appended(l4, " ver="@, text::decimal(ic.version as int));
    text::lemma_appended(l5, " pid="@, text::decimal(ic.pid as int));
    text::lemma_appended(l6, " exe="@, ic.exe_path);
    text::lemma_appended(l7, " tooltip="@, text::debug_text(ic.tooltip));
    text::lemma_appended(l8, " iconBytes="@, bytes);
    assert(icon_line_text(tag, ic) == l8 + " iconBytes="@ + bytes);
    assert(icon_line_text(tag, ic).take(tag.len() as int) =~= tag);
}

/// A list of icons has one line each, in order.
pub proof fn every_icon_has_its_line(tag: Seq<char>, icons: Seq<TrayIconView>, i: int)
    requires
        0 <= i < icons.len(),
    ensures
        icon_lines(tag, icons).len() == icons.len(),
        icon_lines(tag, icons)[i] == icon_line_text(tag, icons[i]),
{
}

/// The value of an icon has its fields, and that of a list of icons has the value of each.
pub proof fn icons_are_seen_as_they_are(ic: TrayIcon, icons: Seq<TrayIcon>, lines: Seq<String>, i: int)
    ensures
        ic@.id == ic.id@,
        ic@.owner_hwnd == ic.owner_hwnd,
        ic@.uid == ic.uid,
        ic@.callback_msg == ic.callback_msg,
        ic@.version == ic.version,
        ic@.tooltip == ic.tooltip@,
        ic@.exe_path == ic.exe_path@,
        ic@.pid == ic.pid,
        ic@.icon == ic.icon@,
        icon_views(icons).len() == icons.len(),
        0 <= i < icons.len() ==> icon_views(icons)[i] == icons[i]@,
        line_texts(lines).len() == lines.len(),
        0 <= i < lines.len() ==> line_texts(lines)[i] == lines[i]@,
{
}

} // verus!
