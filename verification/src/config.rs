//! The files of a Glacier configuration: what is asked, and what is written.

use vstd::prelude::*;

use crate::template::{fill, filled, slot, Slot, SlotView};
use crate::text::{find_last, last_at, lemma_last_at, slice_of};

verus! {

/// The flake, with a slot for each answer.
pub const FLAKE_TEMPLATE: &'static str = r#"{
  description = "My GlacierOS";
  inputs = {
    nixpkgs.url = "github:NixOS/nixpkgs";
    glacier.url = "github:ChickenChunk579/glacier";
  };
  outputs = {
    self,
    nixpkgs,
    glacier,
    ...
  }: let
    baseModules = [
      ./configuration.nix
      glacier.nixosModules.base
      glacier.glacierModules.{wm}
      glacier.glacierModules.{terminal}
      glacier.glacierModules.{dm}
      glacier.glacierModules.{launcher}
      glacier.glacierModules.{browser}
      glacier.glacierModules.{shell}
      glacier.glacierModules.{editor}
    ];
  in {
    nixosConfigurations = {
      {systemName} = nixpkgs.lib.nixosSystem {
        system = "x86_64-linux";
        specialArgs = {inherit glacier;};
        modules = baseModules ++ [./hosts/{systemName}.nix];
      };
      vm = nixpkgs.lib.nixosSystem {
        system = "x86_64-linux";
        specialArgs = {inherit glacier;};
        modules =
          baseModules
          ++ [
            (
              {pkgs, ...}: {
                virtualisation.vmVariant = {
                  virtualisation.memorySize = 2048;
                  virtualisation.cores = 2;
                  virtualisation.qemu.options = [
                    "-device virtio-vga-gl"
                    "-display gtk,gl=on"
                  ];
                };
              }
            )
          ];
      };
    };
  };
}
"#;

/// The configuration of the system, with a slot for each answer.
pub const CONFIGURATION_TEMPLATE: &'static str = r#"{
  pkgs,
  config,
  lib,
  glacier,
  ...
}: {
  glacier.enable = true;
  glacier.homeModules = [
    glacier.glacierHomeModules.{wm}
    glacier.glacierHomeModules.{terminal}
    glacier.glacierHomeModules.{shell}
    glacier.glacierHomeModules.{launcher}
    glacier.glacierHomeModules.{browser}
    glacier.glacierHomeModules.{editor}
    glacier.glacierThemeModules.{colors}
  ];
  glacier.{wm}.enable = true;
  glacier.{terminal}.enable = true;
  glacier.{dm}.enable = true;
  glacier.{launcher}.enable = true;
  glacier.{browser}.enable = true;
  glacier.{shell}.enable = true;

  glacier.users.{user} = {
    fullName = "{fullName}";
    emailAddress = "{email}";
    home = ./home.nix;
    wallpapers = [];
  };

  environment.systemPackages = with pkgs; [
    micro
    gnumake
    nautilus
    fzf
  ];

  networking.networkmanager.enable = true;

  nix.settings = {
    max-jobs = "auto";
    cores = 0;
  };

  nix.optimise.automatic = true;

  system.stateVersion = "26.05";
}
"#;

/// The configuration of the home directory, with a slot for each answer.
pub const HOME_TEMPLATE: &'static str = r#"{
  pkgs,
  config,
  lib,
  glacier,
  ...
}: {
  home.stateVersion = "25.11";
  glacier.wallpaper = config.glacier.defaultWallpapers.{wallpaper};
}
"#;

/// The boot loader on a machine with UEFI firmware.
pub const UEFI_BOOT: &'static str = r#"  boot.loader = {
    efi = {
      canTouchEfiVariables = true;
      efiSysMountPoint = "/boot";
    };
    grub = {
      enable = true;
      device = "nodev";
      efiSupport = true;
    };
  };"#;

/// The boot loader on a machine with legacy firmware.
pub const BIOS_BOOT: &'static str = r#"  boot.loader = {
    grub = {
      enable = true;
      device = "{disk}";
      efiSupport = false;
    };
  };"#;

/// The answers to the questions about a configuration.
#[derive(Debug)]
pub struct Answers {
    pub system_name: String,
    pub user: String,
    pub full_name: String,
    pub email: String,
    pub wm: String,
    pub terminal: String,
    pub dm: String,
    pub launcher: String,
    pub browser: String,
    pub shell: String,
    pub editor: String,
    pub wallpaper: String,
    pub theme: String,
}

/// The value of `Answers`.
#[verifier::ext_equal]
pub struct AnswersView {
    pub system_name: Seq<char>,
    pub user: Seq<char>,
    pub full_name: Seq<char>,
    pub email: Seq<char>,
    pub wm: Seq<char>,
    pub terminal: Seq<char>,
    pub dm: Seq<char>,
    pub launcher: Seq<char>,
    pub browser: Seq<char>,
    pub shell: Seq<char>,
    pub editor: Seq<char>,
    pub wallpaper: Seq<char>,
    pub theme: Seq<char>,
}

impl DeepView for Answers {
    type V = AnswersView;

    open spec fn deep_view(&self) -> AnswersView {
        AnswersView {
            system_name: self.system_name@,
            user: self.user@,
            full_name: self.full_name@,
            email: self.email@,
            wm: self.wm@,
            terminal: self.terminal@,
            dm: self.dm@,
            launcher: self.launcher@,
            browser: self.browser@,
            shell: self.shell@,
            editor: self.editor@,
            wallpaper: self.wallpaper@,
            theme: self.theme@,
        }
    }
}

/// The slots of the flake.
pub open spec fn flake_slots(a: AnswersView) -> Seq<SlotView> {
    seq![
        slot("{systemName}"@, a.system_name),
        slot("{wm}"@, a.wm),
        slot("{terminal}"@, a.terminal),
        slot("{dm}"@, a.dm),
        slot("{launcher}"@, a.launcher),
        slot("{browser}"@, a.browser),
        slot("{shell}"@, a.shell),
        slot("{editor}"@, a.editor),
    ]
}

/// The slots of the configuration of the system.
pub open spec fn configuration_slots(a: AnswersView) -> Seq<SlotView> {
    seq![
        slot("{systemName}"@, a.system_name),
        slot("{user}"@, a.user),
        slot("{email}"@, a.email),
        slot("{colors}"@, a.theme),
        slot("{fullName}"@, a.full_name),
        slot("{wm}"@, a.wm),
        slot("{terminal}"@, a.terminal),
        slot("{dm}"@, a.dm),
        slot("{launcher}"@, a.launcher),
        slot("{browser}"@, a.browser),
        slot("{shell}"@, a.shell),
        slot("{editor}"@, a.editor),
    ]
}

/// The slots of the configuration of the home directory.
pub open spec fn home_slots(a: AnswersView) -> Seq<SlotView> {
    seq![slot("{wallpaper}"@, a.wallpaper)]
}

/// The flake for these answers.
pub fn flake_file(a: &Answers) -> (r: String)
    ensures
        r@ == filled(FLAKE_TEMPLATE@, flake_slots(a.deep_view())),
{
    proof {
        lemma_slot_lengths();
    }
    let slots = vec![
        Slot { slot: "{systemName}", value: a.system_name.as_str() },
        Slot { slot: "{wm}", value: a.wm.as_str() },
        Slot { slot: "{terminal}", value: a.terminal.as_str() },
        Slot { slot: "{dm}", value: a.dm.as_str() },
        Slot { slot: "{launcher}", value: a.launcher.as_str() },
        Slot { slot: "{browser}", value: a.browser.as_str() },
        Slot { slot: "{shell}", value: a.shell.as_str() },
        Slot { slot: "{editor}", value: a.editor.as_str() },
    ];
    assert(slots.deep_view() =~= flake_slots(a.deep_view()));
    fill(FLAKE_TEMPLATE, &slots)
}

/// The configuration of the system for these answers.
pub fn configuration_file(a: &Answers) -> (r: String)
    ensures
        r@ == filled(CONFIGURATION_TEMPLATE@, configuration_slots(a.deep_view())),
{
    proof {
        lemma_slot_lengths();
    }
    let slots = vec![
        Slot { slot: "{systemName}", value: a.system_name.as_str() },
        Slot { slot: "{user}", value: a.user.as_str() },
        Slot { slot: "{email}", value: a.email.as_str() },
        Slot { slot: "{colors}", value: a.theme.as_str() },
        Slot { slot: "{fullName}", value: a.full_name.as_str() },
        Slot { slot: "{wm}", value: a.wm.as_str() },
        Slot { slot: "{terminal}", value: a.terminal.as_str() },
        Slot { slot: "{dm}", value: a.dm.as_str() },
        Slot { slot: "{launcher}", value: a.launcher.as_str() },
        Slot { slot: "{browser}", value: a.browser.as_str() },
        Slot { slot: "{shell}", value: a.shell.as_str() },
        Slot { slot: "{editor}", value: a.editor.as_str() },
    ];
    assert(slots.deep_view() =~= configuration_slots(a.deep_view()));
    fill(CONFIGURATION_TEMPLATE, &slots)
}

/// The configuration of the home directory for these answers.
pub fn home_file(a: &Answers) -> (r: String)
    ensures
        r@ == filled(HOME_TEMPLATE@, home_slots(a.deep_view())),
{
    proof {
        lemma_slot_lengths();
    }
    let slots = vec![Slot { slot: "{wallpaper}", value: a.wallpaper.as_str() }];
    assert(slots.deep_view() =~= home_slots(a.deep_view()));
    fill(HOME_TEMPLATE, &slots)
}

/// No slot is empty.
proof fn lemma_slot_lengths()
    ensures
        "{systemName}"@.len() > 0,
        "{user}"@.len() > 0,
        "{email}"@.len() > 0,
        "{colors}"@.len() > 0,
        "{fullName}"@.len() > 0,
        "{wm}"@.len() > 0,
        "{terminal}"@.len() > 0,
        "{dm}"@.len() > 0,
        "{launcher}"@.len() > 0,
        "{browser}"@.len() > 0,
        "{shell}"@.len() > 0,
        "{editor}"@.len() > 0,
        "{wallpaper}"@.len() > 0,
{
    reveal_strlit("{systemName}");
    reveal_strlit("{user}");
    reveal_strlit("{email}");
    reveal_strlit("{colors}");
    reveal_strlit("{fullName}");
    reveal_strlit("{wm}");
    reveal_strlit("{terminal}");
    reveal_strlit("{dm}");
    reveal_strlit("{launcher}");
    reveal_strlit("{browser}");
    reveal_strlit("{shell}");
    reveal_strlit("{editor}");
    reveal_strlit("{wallpaper}");
}

/// The boot loader that goes with the firmware.
pub open spec fn boot_block(uefi: bool) -> Seq<char> {
    if uefi {
        UEFI_BOOT@
    } else {
        BIOS_BOOT@
    }
}

/// `content` with the boot loader put in before its last closing brace, on lines
/// of its own; where there is no brace, at its end, with one behind it.
pub open spec fn with_boot_block(content: Seq<char>, uefi: bool) -> Seq<char> {
    let n = last_at(content, '}');
    if n >= 0 {
        content.take(n) + ("\n"@ + boot_block(uefi) + "\n"@) + content.skip(n)
    } else {
        content + ("\n"@ + boot_block(uefi) + "\n}\n"@)
    }
}

/// The hardware configuration `content` with the boot loader added.
pub fn append_bootloader(content: &str, uefi: bool) -> (r: String)
    ensures
        r@ == with_boot_block(content@, uefi),
{
    let block = if uefi {
        UEFI_BOOT
    } else {
        BIOS_BOOT
    };
    let n = content.unicode_len();
    proof {
        lemma_last_at(content@, '}');
    }
    let mut r: String;
    match find_last(content, '}') {
        Some(pos) => {
            r = slice_of(content, 0, pos);
            r.append("\n");
            r.append(block);
            r.append("\n");
            r.append(slice_of(content, pos, n).as_str());
        },
        None => {
            r = content.to_string();
            r.append("\n");
            r.append(block);
            r.append("\n}\n");
        },
    }
    assert(r@ =~= with_boot_block(content@, uefi));
    r
}

/// Law: the boot loader is added and nothing else changes. What stood before the last
/// closing brace stays at the start, what stood from it on stays at the end, and that
/// brace is still the last.
pub proof fn law_the_boot_loader_goes_before_the_last_brace(content: Seq<char>, uefi: bool)
    requires
        content.contains('}'),
    ensures
        ({
            let n = last_at(content, '}');
            let r = with_boot_block(content, uefi);
            let behind = r.len() - (content.len() - n);
            &&& 0 <= n < content.len()
            &&& r.take(n) == content.take(n)
            &&& r.subrange(n, behind) == "\n"@ + boot_block(uefi) + "\n"@
            &&& r.skip(behind) == content.skip(n)
            &&& last_at(r, '}') == behind
        }),
{
    lemma_last_at(content, '}');
    let n = last_at(content, '}');
    let k = choose|k: int| 0 <= k < content.len() && content[k] == '}';
    assert(content[k] == '}');
    let r = with_boot_block(content, uefi);
    let added = "\n"@ + boot_block(uefi) + "\n"@;
    let behind = r.len() - (content.len() - n);
    assert(behind == n + added.len());
    assert(r.take(n) =~= content.take(n));
    assert(r.subrange(n, behind) =~= added);
    assert(r.skip(behind) =~= content.skip(n));
    lemma_last_at(r, '}');
    assert(r[behind] == content[n]);
    assert forall|i: int| behind < i < r.len() implies r[i] != '}' by {
        assert(r[i] == content[i - added.len()]);
    }
}

/// Law: to a text without a closing brace the boot loader is added at its end, with a
/// brace behind it.
pub proof fn law_the_boot_loader_closes_an_open_text(content: Seq<char>, uefi: bool)
    requires
        !content.contains('}'),
    ensures
        with_boot_block(content, uefi) == content + "\n"@ + boot_block(uefi) + "\n}\n"@,
{
    lemma_last_at(content, '}');
    assert(with_boot_block(content, uefi) =~= content + "\n"@ + boot_block(uefi) + "\n}\n"@);
}

/// Law: the boot loader that is added, by the firmware.
pub proof fn law_the_boot_loader_fits_the_firmware(uefi: bool)
    ensures
        uefi ==> boot_block(uefi) == r#"  boot.loader = {
    efi = {
      canTouchEfiVariables = true;
      efiSysMountPoint = "/boot";
    };
    grub = {
      enable = true;
      device = "nodev";
      efiSupport = true;
    };
  };"#@,
        !uefi ==> boot_block(uefi) == r#"  boot.loader = {
    grub = {
      enable = true;
      device = "{disk}";
      efiSupport = false;
    };
  };"#@,
{
}

} // verus!
