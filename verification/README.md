# orml_location

Verified location and asset logic for cross-chain (XCM) transfers between parachains.

* `junction`, `multilocation`, `asset`: the library's own model of XCM locations
  (parents plus an interior path of at most eight junctions), assets and asset
  holdings, with equality, the interior operations and the holding subtraction. A
  well-formed holding lists its fungible assets in increasing order of identity.
* `location`: the `Parse` trait (chain part and non-chain part of a location) and the
  `Reserve` trait (reserve location of an asset), with their laws.
* `support`: matching native currencies (`IsNativeConcrete`), accepting assets from
  their reserve (`MultiNativeAsset`) and a location-to-currency converter.
* `relative_view`: the currency conversions, weight trader, channel information,
  destination filter and fee table of a test network of parachains.
* `order`: the order of junctions, locations and asset identities (by variant, then by
  fields in order), which a well-formed holding follows.
* `keys`: 32-byte general keys built from names.

Every function carries a contract that Verus proves; `tests/` runs the library on
concrete values.
