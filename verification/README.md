# shyper

The logic of a type-1 hypervisor for AArch64 and RISC-V, and of its command-line
manager, written in Verus and proved against its contracts.

Layout:

- `src/arch/aarch64`: the stage-2 page table, the virtual GIC (distributor and
  redistributor emulation, list-register management, SGI routing), the GICv3
  register decoders, the MMU descriptor helpers and the vCPU context frame.
- `src/arch/riscv64`: the Sv39 page table, the guest page-fault decoder, the PLIC,
  APLIC and IMSIC register models, the virtual PLIC and APLIC, and the context frame.
- `src/board`, `src/config`: the platform descriptions and the default VM configurations.
- `src/cli`: the manager's configuration model, its argument parsing, the daemon's
  decisions and the VM-management requests.
- `src/utils/interval.rs`: interval arithmetic used to carve memory regions.
- `tests/`: executable tests of the library.
- `app/`: the command-line program: argument handling, files, ioctls and signals,
  around the library.
