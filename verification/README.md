# adin1110

Driver for the ADIN1110, a 10BASE-T1L Ethernet MAC and PHY on an SPI bus.

* `src/` is the driver logic, verified with Verus. It does no input or output:
  every operation is a value that says which SPI transaction comes next and takes
  what came back.
  * `crc8`, `crc32`: checksums of SPI messages and of Ethernet frames
  * `regs`, `phy`: register maps and register layouts
  * `mac`: register reads and writes
  * `fifo`: frames in and out of the packet memory
  * `mdio`: access to the PHY
  * `filter`: the MAC address filter
  * `init`: bringing the device up
  * `runner`: the service loop
  * `buffer`: what is trusted about `heapless::Vec`, in which messages are put
    together
* `app/` is the asynchronous driver for embassy-net around it.
* `tests/` runs the library against known transfers.
