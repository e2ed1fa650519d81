//! Linux desktop integration: the desktop entry and the hicolor icon theme
//! written for the current user, the stamp that tells whether they are up
//! to date, and the `_NET_WM_ICON` property set on X11 windows.
//!
//! The install is user-scoped, under `$XDG_DATA_HOME`:
//!
//! ```text
//! <data>/applications/ezicode.desktop
//! <data>/icons/hicolor/<n>x<n>/apps/ezicode.png
//! <data>/ezicode/desktop-install.stamp
//! ```

use crate::paths::{is_absolute_path, path_is_absolute, path_join, path_joined};
use crate::text::{chars_of, decimal, push_all, push_decimal, string_of};
use vstd::prelude::*;

verus! {

/// The icon sizes panels and launchers ask for, largest first.
pub open spec fn spec_icon_sizes() -> Seq<u32> {
    seq![512u32, 256u32, 128u32, 64u32, 48u32, 32u32, 24u32, 16u32]
}

/// The sizes put into `_NET_WM_ICON`, largest first.
pub open spec fn spec_window_icon_sizes() -> Seq<u32> {
    seq![256u32, 128u32, 64u32, 48u32, 32u32, 24u32, 16u32]
}

/// The icon sizes written to the icon theme.
pub fn icon_sizes() -> (r: Vec<u32>)
    ensures
        r@ == spec_icon_sizes(),
{
    let r = vec![512u32, 256, 128, 64, 48, 32, 24, 16];
    assert(r@ =~= spec_icon_sizes());
    r
}

/// The icon sizes set on the window.
pub fn window_icon_sizes() -> (r: Vec<u32>)
    ensures
        r@ == spec_window_icon_sizes(),
{
    let r = vec![256u32, 128, 64, 48, 32, 24, 16];
    assert(r@ =~= spec_window_icon_sizes());
    r
}

/// `$XDG_DATA_HOME` when it is absolute, else `~/.local/share`, else
/// `.local/share`.
pub open spec fn spec_data_home(xdg_data_home: Option<Seq<char>>, home: Option<Seq<char>>) -> Seq<char> {
    if xdg_data_home is Some && path_is_absolute(xdg_data_home->0) {
        xdg_data_home->0
    } else if home is Some {
        path_joined(home->0, ".local/share"@)
    } else {
        ".local/share"@
    }
}

/// The user's data directory.
pub fn data_home(xdg_data_home: Option<String>, home: Option<String>) -> (r: String)
    ensures
        r@ == spec_data_home(
            match xdg_data_home {
                Some(s) => Some(s@),
                None => None,
            },
            match home {
                Some(s) => Some(s@),
                None => None,
            },
        ),
{
    if let Some(x) = &xdg_data_home {
        if is_absolute_path(x.as_str()) {
            return x.clone();
        }
    }
    match &home {
        Some(h) => path_join(h.as_str(), ".local/share"),
        None => ".local/share".to_string(),
    }
}

/// `<desktop dir>/ezicode.desktop`.
pub fn desktop_entry_path(desktop_dir: &str) -> (r: String)
    ensures
        r@ == path_joined(desktop_dir@, "ezicode.desktop"@),
{
    path_join(desktop_dir, "ezicode.desktop")
}

/// The folder of an icon size in the hicolor theme: `<n>x<n>`.
pub open spec fn size_folder(size: u32) -> Seq<char> {
    decimal(size as nat) + "x"@ + decimal(size as nat)
}

/// `<icons>/hicolor/<n>x<n>/apps/ezicode.png`.
pub open spec fn spec_icon_path(icons_dir: Seq<char>, size: u32) -> Seq<char> {
    path_joined(
        path_joined(path_joined(path_joined(icons_dir, "hicolor"@), size_folder(size)), "apps"@),
        "ezicode.png"@,
    )
}

/// Where the icon of size `size` goes (hicolor keys icons by exact size).
pub fn icon_path(icons_dir: &str, size: u32) -> (r: String)
    ensures
        r@ == spec_icon_path(icons_dir@, size),
{
    let mut folder: Vec<char> = Vec::new();
    push_decimal(&mut folder, size as u64);
    folder.push('x');
    push_decimal(&mut folder, size as u64);
    proof {
        reveal_strlit("x");
        assert(folder@ =~= size_folder(size));
    }
    let folder = string_of(&folder);
    let d = path_join(icons_dir, "hicolor");
    let d = path_join(d.as_str(), folder.as_str());
    let d = path_join(d.as_str(), "apps");
    path_join(d.as_str(), "ezicode.png")
}

/// `<data>/ezicode/desktop-install.stamp`.
pub fn stamp_path(data_home: &str) -> (r: String)
    ensures
        r@ == path_joined(path_joined(data_home@, "ezicode"@), "desktop-install.stamp"@),
{
    let d = path_join(data_home, "ezicode");
    path_join(d.as_str(), "desktop-install.stamp")
}

/// Every file the install writes: the desktop entry, then the icon of
/// each size, largest first.
pub open spec fn spec_installed_files(data_home: Seq<char>) -> Seq<Seq<char>> {
    seq![path_joined(path_joined(data_home, "applications"@), "ezicode.desktop"@)] + spec_icon_sizes().map_values(
        |n: u32| spec_icon_path(path_joined(data_home, "icons"@), n),
    )
}

/// The files whose presence tells that the install is still in place.
pub fn installed_files(data_home: &str) -> (r: Vec<String>)
    ensures
        r@.map_values(|s: String| s@) == spec_installed_files(data_home@),
{
    let apps = path_join(data_home, "applications");
    let icons = path_join(data_home, "icons");
    let mut out: Vec<String> = Vec::new();
    out.push(desktop_entry_path(apps.as_str()));
    let sizes = icon_sizes();
    let ghost first = path_joined(path_joined(data_home@, "applications"@), "ezicode.desktop"@);
    let mut i: usize = 0;
    while i < sizes.len()
        invariant
            0 <= i <= sizes@.len(),
            sizes@ == spec_icon_sizes(),
            icons@ == path_joined(data_home@, "icons"@),
            out@.map_values(|s: String| s@) == seq![first] + spec_icon_sizes().take(i as int).map_values(
                |n: u32| spec_icon_path(icons@, n),
            ),
        decreases sizes@.len() - i,
    {
        let p = icon_path(icons.as_str(), sizes[i]);
        let ghost before = out@;
        out.push(p);
        proof {
            assert(out@.map_values(|s: String| s@) =~= before.map_values(|s: String| s@).push(p@));
            assert(spec_icon_sizes().take(i + 1).map_values(|n: u32| spec_icon_path(icons@, n)) =~= spec_icon_sizes().take(
                i as int,
            ).map_values(|n: u32| spec_icon_path(icons@, n)).push(spec_icon_path(icons@, sizes@[i as int])));
        }
        i = i + 1;
    }
    proof {
        assert(spec_icon_sizes().take(i as int) =~= spec_icon_sizes());
    }
    out
}

/// FNV-1a offset basis.
pub open spec fn fnv_offset() -> u64 {
    0xcbf2_9ce4_8422_2325u64
}

/// FNV-1a prime.
pub open spec fn fnv_prime() -> u64 {
    0x0000_0100_0000_01b3u64
}

/// The 64-bit FNV-1a hash of `bytes`: from the offset basis, each byte is
/// XORed in and the hash multiplied by the prime, modulo 2^64.
pub open spec fn fnv1a(bytes: Seq<u8>) -> u64
    decreases bytes.len(),
{
    if bytes.len() == 0 {
        fnv_offset()
    } else {
        (((fnv1a(bytes.drop_last()) ^ (bytes.last() as u64)) as nat * fnv_prime() as nat)
            % 0x1_0000_0000_0000_0000nat) as u64
    }
}

/// A cheap fingerprint of the logo, to tell whether it changed since the
/// last install.
pub fn fingerprint(bytes: &[u8]) -> (r: u64)
    ensures
        r == fnv1a(bytes@),
{
    let mut hash: u64 = 0xcbf2_9ce4_8422_2325;
    let mut i: usize = 0;
    while i < bytes.len()
        invariant
            0 <= i <= bytes@.len(),
            hash == fnv1a(bytes@.take(i as int)),
        decreases bytes@.len() - i,
    {
        assert(bytes@.take(i + 1).drop_last() =~= bytes@.take(i as int));
        hash = hash ^ (bytes[i] as u64);
        hash = hash.wrapping_mul(0x0000_0100_0000_01b3);
        i = i + 1;
    }
    assert(bytes@.take(i as int) =~= bytes@);
    hash
}

/// The lowercase hex digit for `d < 16`.
pub open spec fn hex_char(d: nat) -> char {
    if d < 10 {
        ('0' as nat + d) as char
    } else {
        ('a' as nat + d - 10) as char
    }
}

/// The last `k` hex digits of `n`, zero-padded.
pub open spec fn hex_digits(n: nat, k: nat) -> Seq<char>
    decreases k,
{
    if k == 0 {
        Seq::empty()
    } else {
        hex_digits(n / 16, (k - 1) as nat).push(hex_char(n % 16))
    }
}

/// Appends the last `k` hex digits of `n`, zero-padded.
fn push_hex(out: &mut Vec<char>, n: u64, k: u32)
    ensures
        final(out)@ == old(out)@ + hex_digits(n as nat, k as nat),
    decreases k,
{
    if k == 0 {
        assert(old(out)@ + hex_digits(n as nat, 0) =~= old(out)@);
        return;
    }
    push_hex(out, n / 16, k - 1);
    let d = n % 16;
    let c = if d < 10 {
        char_of(('0' as u32) + (d as u32))
    } else {
        char_of(('a' as u32) + (d as u32) - 10)
    };
    out.push(c);
}

/// The character with a code below 128.
fn char_of(n: u32) -> (r: char)
    requires
        n < 128,
    ensures
        r == n as char,
{
    let b = n as u8;
    b as char
}

/// The stamp for a logo fingerprint: `ezicode <16 hex digits>` and a line
/// break.
pub open spec fn spec_stamp(fingerprint: u64) -> Seq<char> {
    "ezicode "@ + hex_digits(fingerprint as nat, 16) + seq!['\n']
}

/// The stamp written once the install is done.
pub fn stamp_text(fingerprint: u64) -> (r: String)
    ensures
        r@ == spec_stamp(fingerprint),
{
    let mut cs = chars_of("ezicode ");
    push_hex(&mut cs, fingerprint, 16);
    cs.push('\n');
    string_of(&cs)
}

/// Whether the install has to run: unless the stamp on disk is the current
/// one and every installed file is still there.
pub fn install_needed(current_stamp: Option<&str>, stamp: &str, files_present: bool) -> (r: bool)
    ensures
        r == !((current_stamp matches Some(c) && c@ == stamp@) && files_present),
{
    let current = match current_stamp {
        Some(c) => crate::text::same_chars(chars_of(c).as_slice(), chars_of(stamp).as_slice()),
        None => false,
    };
    !(current && files_present)
}

/// `%` doubled, the desktop-entry escape for a literal percent sign.
pub open spec fn escape_percent(s: Seq<char>) -> Seq<char>
    decreases s.len(),
{
    if s.len() == 0 {
        Seq::empty()
    } else if s.last() == '%' {
        escape_percent(s.drop_last()) + seq!['%', '%']
    } else {
        escape_percent(s.drop_last()).push(s.last())
    }
}

/// The desktop entry above the launch line.
pub open spec fn entry_head() -> Seq<char> {
    "[Desktop Entry]\nType=Application\nName=ezicode\nGenericName=Code Editor\nComment=Fast, modern code editor powered by GPUI\nExec="@
}

/// The desktop entry below the launch line.
pub open spec fn entry_tail() -> Seq<char> {
    "Icon=ezicode\nTerminal=false\nCategories=Development;IDE;TextEditor;\nMimeType=text/plain;inode/directory;\n# We never answer org.freedesktop.Startup, and claiming to would leave a\n# ghost entry sitting in the taskbar for the whole launch.\nStartupNotify=false\n# Must equal the WM_CLASS / Wayland app_id GPUI sets from `app_id`, or\n# desktop-file matching silently falls back to a generic icon.\nStartupWMClass=ezicode\n"@
}

/// The desktop entry for the executable at `path`: `Exec` runs it with the
/// files to open (its `%` escaped), `TryExec` names it as it is.
pub open spec fn spec_desktop_entry(path: Seq<char>) -> Seq<char> {
    entry_head() + escape_percent(path) + " %F\nTryExec="@ + path + "\n"@ + entry_tail()
}

/// The desktop entry, for the running executable (`ezicode` when its path
/// is unknown or not valid UTF-8).
pub fn desktop_entry_contents(exe: Option<&str>) -> (r: String)
    ensures
        r@ == spec_desktop_entry(
            match exe {
                Some(p) => p@,
                None => "ezicode"@,
            },
        ),
{
    let path = match exe {
        Some(p) => chars_of(p),
        None => chars_of("ezicode"),
    };
    let mut exec: Vec<char> = Vec::new();
    let mut i: usize = 0;
    while i < path.len()
        invariant
            0 <= i <= path@.len(),
            exec@ == escape_percent(path@.take(i as int)),
        decreases path@.len() - i,
    {
        assert(path@.take(i + 1).drop_last() =~= path@.take(i as int));
        if path[i] == '%' {
            exec.push('%');
            exec.push('%');
            assert(exec@ =~= escape_percent(path@.take(i as int)) + seq!['%', '%']);
        } else {
            exec.push(path[i]);
        }
        i = i + 1;
    }
    assert(path@.take(i as int) =~= path@);
    let mut out = chars_of("[Desktop Entry]\nType=Application\nName=ezicode\nGenericName=Code Editor\nComment=Fast, modern code editor powered by GPUI\nExec=");
    push_all(&mut out, exec.as_slice());
    push_all(&mut out, chars_of(" %F\nTryExec=").as_slice());
    push_all(&mut out, path.as_slice());
    push_all(&mut out, chars_of("\n").as_slice());
    push_all(&mut out, chars_of("Icon=ezicode\nTerminal=false\nCategories=Development;IDE;TextEditor;\nMimeType=text/plain;inode/directory;\n# We never answer org.freedesktop.Startup, and claiming to would leave a\n# ghost entry sitting in the taskbar for the whole launch.\nStartupNotify=false\n# Must equal the WM_CLASS / Wayland app_id GPUI sets from `app_id`, or\n# desktop-file matching silently falls back to a generic icon.\nStartupWMClass=ezicode\n").as_slice());
    string_of(&out)
}

/// A pixel packed as `_NET_WM_ICON` wants it: `a << 24 | r << 16 | g << 8 | b`.
pub open spec fn argb(p: [u8; 4]) -> u32 {
    (p[3] as nat * 0x100_0000 + p[0] as nat * 0x1_0000 + p[1] as nat * 0x100 + p[2] as nat) as u32
}

/// The property value for a ladder of square images (each a size and its
/// RGBA pixels, row by row): for each, the width, the height, then its
/// pixels packed.
pub open spec fn icon_property(ladder: Seq<(u32, Vec<[u8; 4]>)>) -> Seq<u32>
    decreases ladder.len(),
{
    if ladder.len() == 0 {
        Seq::empty()
    } else {
        icon_property(ladder.drop_last()) + seq![ladder.last().0, ladder.last().0]
            + ladder.last().1@.map_values(|p: [u8; 4]| argb(p))
    }
}

/// Packs one RGBA pixel.
fn pack_argb(p: [u8; 4]) -> (r: u32)
    ensures
        r == argb(p),
{
    let r = p[0] as u32;
    let g = p[1] as u32;
    let b = p[2] as u32;
    let a = p[3] as u32;
    let v = a << 24 | r << 16 | g << 8 | b;
    assert(v == a * 0x100_0000 + r * 0x1_0000 + g * 0x100 + b) by (bit_vector)
        requires
            v == a << 24 | r << 16 | g << 8 | b,
            a < 256,
            r < 256,
            g < 256,
            b < 256,
    ;
    v
}

/// The `_NET_WM_ICON` property value for a ladder of images.
pub fn net_wm_icon_pixels(ladder: &[(u32, Vec<[u8; 4]>)]) -> (r: Vec<u32>)
    ensures
        r@ == icon_property(ladder@),
{
    let mut out: Vec<u32> = Vec::new();
    let mut i: usize = 0;
    while i < ladder.len()
        invariant
            0 <= i <= ladder@.len(),
            out@ == icon_property(ladder@.take(i as int)),
        decreases ladder@.len() - i,
    {
        let size = ladder[i].0;
        let pixels = &ladder[i].1;
        let ghost base = out@ + seq![size, size];
        out.push(size);
        out.push(size);
        let mut j: usize = 0;
        while j < pixels.len()
            invariant
                0 <= j <= pixels@.len(),
                out@ == base + pixels@.take(j as int).map_values(|p: [u8; 4]| argb(p)),
            decreases pixels@.len() - j,
        {
            let v = pack_argb(pixels[j]);
            out.push(v);
            assert(pixels@.take(j + 1).map_values(|p: [u8; 4]| argb(p)) =~= pixels@.take(j as int).map_values(
                |p: [u8; 4]| argb(p),
            ).push(argb(pixels@[j as int])));
            j = j + 1;
        }
        proof {
            assert(pixels@.take(j as int) =~= pixels@);
            assert(ladder@.take(i + 1).drop_last() =~= ladder@.take(i as int));
        }
        i = i + 1;
    }
    assert(ladder@.take(i as int) =~= ladder@);
    out
}

} // verus!
